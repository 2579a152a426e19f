//! The escrow state machine: create-on-deposit, withdraw-on-expiry,
//! approve-on-payment, change-config.
//!
//! Each operation is a pure function from the stored state and the
//! request to either an error — in which case the stores are left
//! exactly as before — or a new stored state with the outbound
//! instructions the host must issue. The intended outcome of each
//! operation is pinned by a spec transition function
//! ([`spec_receive_nft`], [`spec_withdraw`], [`spec_approve`],
//! [`spec_change_config`]); the executable operations are proved to
//! realize it.

use vstd::prelude::*;
use crate::error::{ContractError, ContractErrorV};
use crate::msg::{
    Attribute, CosmosMsg, CosmosMsgV, Env, ExecuteMsg, InstantiateMsg, MessageInfo, MessageInfoV,
    ReceiveNftMsg, ReceiveNftMsgV, Response,
};
use crate::state::{Escrow, EscrowV, KeyV, Order, State, StateV};
use crate::store::{EscrowStore, lookup, spec_delete, spec_put};

verus! {

/// What a successful transition commits: the records after it, and the
/// outbound instructions it issues, in order.
pub struct TransitionV {
    pub records: Seq<EscrowV>,
    pub messages: Seq<CosmosMsgV>,
}

/// Outcome of a deposit notification. A deposit with a zero price is
/// refused, as is one whose deadline is not in the future; otherwise the
/// new record is stored under `(collection, token_id)`, overwriting any
/// prior record for that key, and no instruction is issued.
pub open spec fn spec_receive_nft(
    s: Seq<EscrowV>,
    now: int,
    collection: Seq<char>,
    rcv: ReceiveNftMsgV,
) -> Result<TransitionV, ContractErrorV> {
    let record = EscrowV {
        source: rcv.sender,
        recipient: rcv.msg.recipient,
        price: rcv.msg.price,
        expires_at: rcv.msg.expiration,
        collection: collection,
        token_id: rcv.token_id,
    };
    if rcv.msg.price == 0 {
        Err(ContractErrorV::NotEnoughFunds)
    } else if rcv.msg.expiration <= now {
        Err(ContractErrorV::EscrowExpired)
    } else {
        Ok(TransitionV { records: spec_put(s, record), messages: Seq::empty() })
    }
}

/// Outcome of a withdrawal. It must carry no payment; the escrow must
/// exist, be expired, and be withdrawn by its source; then the record is
/// deleted and the item is sent back to the source.
pub open spec fn spec_withdraw(
    s: Seq<EscrowV>,
    now: int,
    info: MessageInfoV,
    collection: Seq<char>,
    token_id: Seq<char>,
) -> Result<TransitionV, ContractErrorV> {
    let k = KeyV { collection: collection, token_id: token_id };
    if info.funds.len() > 0 {
        Err(ContractErrorV::NonPayable)
    } else {
        match lookup(s, k) {
            None => Err(ContractErrorV::NoEscrow),
            Some(e) => if !(e.expires_at <= now) {
                Err(ContractErrorV::EscrowNotExpired)
            } else if info.sender != e.source {
                Err(ContractErrorV::Unauthorized)
            } else {
                Ok(
                    TransitionV {
                        records: spec_delete(s, k),
                        messages: seq![
                            CosmosMsgV::TransferNft {
                                collection: collection,
                                recipient: info.sender,
                                token_id: token_id,
                            },
                        ],
                    },
                )
            },
        }
    }
}

/// Outcome of a payment check against a stored escrow: the payment must
/// be exactly one coin, in the configured denomination, of exactly the
/// escrow's price.
pub open spec fn spec_fund_check(
    cfg: StateV,
    info: MessageInfoV,
    e: EscrowV,
) -> Result<(), ContractErrorV> {
    if info.funds.len() != 1 {
        Err(ContractErrorV::OnlyOneCoinAvailable)
    } else if info.funds[0].denom != cfg.denom {
        Err(ContractErrorV::NotExpectedDenom { denom: info.funds[0].denom })
    } else if info.funds[0].amount != e.price {
        Err(ContractErrorV::NotEnoughFunds)
    } else {
        Ok(())
    }
}

/// Outcome of an approval. The escrow must exist and not be expired, the
/// payment must pass [`spec_fund_check`], and the caller must be the
/// escrow's recipient; then the record is deleted and two instructions
/// are issued in fixed order: pay the source, then deliver the item to
/// the recipient.
pub open spec fn spec_approve(
    s: Seq<EscrowV>,
    cfg: StateV,
    now: int,
    info: MessageInfoV,
    collection: Seq<char>,
    token_id: Seq<char>,
) -> Result<TransitionV, ContractErrorV> {
    let k = KeyV { collection: collection, token_id: token_id };
    match lookup(s, k) {
        None => Err(ContractErrorV::NoEscrow),
        Some(e) => if e.expires_at <= now {
            Err(ContractErrorV::EscrowExpired)
        } else {
            match spec_fund_check(cfg, info, e) {
                Err(err) => Err(err),
                Ok(_) => if info.sender != e.recipient {
                    Err(ContractErrorV::Unauthorized)
                } else {
                    Ok(
                        TransitionV {
                            records: spec_delete(s, k),
                            messages: seq![
                                CosmosMsgV::BankSend {
                                    to_address: e.source,
                                    denom: cfg.denom,
                                    amount: e.price,
                                },
                                CosmosMsgV::TransferNft {
                                    collection: collection,
                                    recipient: info.sender,
                                    token_id: token_id,
                                },
                            ],
                        },
                    )
                },
            }
        },
    }
}

/// Outcome of a configuration change: only the current administrator may
/// replace the configuration record, atomically and completely.
pub open spec fn spec_change_config(
    cfg: StateV,
    sender: Seq<char>,
    new_cfg: StateV,
) -> Result<StateV, ContractErrorV> {
    if sender != cfg.admin {
        Err(ContractErrorV::Unauthorized)
    } else {
        Ok(new_cfg)
    }
}

/// Initialization: the given administrator and denomination become the
/// configuration record; nothing else is stored and no instruction is
/// issued.
pub fn instantiate(msg: InstantiateMsg) -> (r: (State, Response))
    ensures
        r.0@.admin == msg.admin@,
        r.0@.denom == msg.denom@,
        r.1.messages@.len() == 0,
        r.1.attributes.deep_view() =~= seq![
            crate::msg::AttributeV { key: "action"@, value: "instantiate"@ },
            crate::msg::AttributeV { key: "admin"@, value: msg.admin@ },
        ],
{
    let admin_attr = msg.admin.clone();
    let state = State { admin: msg.admin, denom: msg.denom };
    let response = Response {
        attributes: vec![
            Attribute { key: "action".to_owned(), value: "instantiate".to_owned() },
            Attribute { key: "admin".to_owned(), value: admin_attr },
        ],
        messages: Vec::new(),
    };
    (state, response)
}

/// Dispatch of a state-changing operation to its transition.
pub fn execute(
    store: &mut EscrowStore,
    config: &mut State,
    env: &Env,
    info: &MessageInfo,
    msg: ExecuteMsg,
) -> (r: Result<Response, ContractError>)
    requires
        old(store).wf(),
    ensures
        final(store).wf(),
        match msg {
            ExecuteMsg::ReceiveNft(rcv) => final(config)@ == old(config)@ && (match
                spec_receive_nft(old(store)@, env.block_time as int, info.sender@, rcv@) {
                Ok(t) => r matches Ok(resp) && final(store)@ == t.records
                    && resp.messages.deep_view() == t.messages && resp.attributes.deep_view()
                    =~= seq![
                    crate::msg::AttributeV {
                        key: "action"@,
                        value: "Send nfts to the arbiter contract"@,
                    },
                    crate::msg::AttributeV { key: "token_id"@, value: rcv.token_id@ },
                    crate::msg::AttributeV { key: "source_user"@, value: rcv.sender@ },
                ],
                Err(ev) => (r matches Err(e) && e@ == ev) && final(store)@ == old(store)@,
            }),
            ExecuteMsg::WithdrawNft { collection, token_id } => final(config)@ == old(config)@
                && (match spec_withdraw(
                old(store)@,
                env.block_time as int,
                info@,
                collection@,
                token_id@,
            ) {
                Ok(t) => r matches Ok(resp) && final(store)@ == t.records
                    && resp.messages.deep_view() == t.messages && resp.attributes.deep_view()
                    =~= seq![
                    crate::msg::AttributeV { key: "action"@, value: "Withdraw NFT"@ },
                    crate::msg::AttributeV { key: "token_id"@, value: token_id@ },
                    crate::msg::AttributeV { key: "collection"@, value: collection@ },
                    crate::msg::AttributeV { key: "source"@, value: info.sender@ },
                ],
                Err(ev) => (r matches Err(e) && e@ == ev) && final(store)@ == old(store)@,
            }),
            ExecuteMsg::Approve { collection, token_id } => final(config)@ == old(config)@
                && (match spec_approve(
                old(store)@,
                old(config)@,
                env.block_time as int,
                info@,
                collection@,
                token_id@,
            ) {
                Ok(t) => r matches Ok(resp) && final(store)@ == t.records
                    && resp.messages.deep_view() == t.messages && resp.attributes.deep_view()
                    =~= seq![
                    crate::msg::AttributeV { key: "action"@, value: "Withdraw NFT"@ },
                    crate::msg::AttributeV { key: "token_id"@, value: token_id@ },
                    crate::msg::AttributeV { key: "collection"@, value: collection@ },
                    crate::msg::AttributeV { key: "source"@, value: info.sender@ },
                ],
                Err(ev) => (r matches Err(e) && e@ == ev) && final(store)@ == old(store)@,
            }),
            ExecuteMsg::ChangeConfig { state } => final(store)@ == old(store)@ && (match
                spec_change_config(old(config)@, info.sender@, state@) {
                Ok(c2) => r matches Ok(resp) && final(config)@ == c2
                    && resp.messages.deep_view() == Seq::<CosmosMsgV>::empty()
                    && resp.attributes.deep_view() =~= seq![
                    crate::msg::AttributeV { key: "action"@, value: "chanage config"@ },
                ],
                Err(ev) => (r matches Err(e) && e@ == ev) && final(config)@ == old(config)@,
            }),
        },
{
    match msg {
        ExecuteMsg::ReceiveNft(rcv) => execute_receive_nft(store, env, info, rcv),
        ExecuteMsg::WithdrawNft { collection, token_id } => execute_withdraw(
            store,
            env,
            info,
            collection,
            token_id,
        ),
        ExecuteMsg::Approve { collection, token_id } => execute_approve(
            store,
            config,
            env,
            info,
            collection,
            token_id,
        ),
        ExecuteMsg::ChangeConfig { state } => execute_change_config(config, info, state),
    }
}

/// Deposit: the asset registry (the sender) notifies a transfer-in; a new
/// escrow is stored under `(collection, token_id)`.
pub fn execute_receive_nft(
    store: &mut EscrowStore,
    env: &Env,
    info: &MessageInfo,
    rcv_msg: ReceiveNftMsg,
) -> (r: Result<Response, ContractError>)
    requires
        old(store).wf(),
    ensures
        final(store).wf(),
        match spec_receive_nft(old(store)@, env.block_time as int, info.sender@, rcv_msg@) {
            Ok(t) => r matches Ok(resp) && final(store)@ == t.records
                && resp.messages.deep_view() == t.messages && resp.attributes.deep_view() =~= seq![
                crate::msg::AttributeV {
                    key: "action"@,
                    value: "Send nfts to the arbiter contract"@,
                },
                crate::msg::AttributeV { key: "token_id"@, value: rcv_msg.token_id@ },
                crate::msg::AttributeV { key: "source_user"@, value: rcv_msg.sender@ },
            ],
            Err(ev) => (r matches Err(e) && e@ == ev) && final(store)@ == old(store)@,
        },
{
    let collection = info.sender.clone();
    let token_id = rcv_msg.token_id.clone();
    let source = rcv_msg.sender.clone();

    if rcv_msg.msg.price == 0 {
        return Err(ContractError::NotEnoughFunds);
    }

    let escrow = Escrow {
        source: rcv_msg.sender,
        recipient: rcv_msg.msg.recipient,
        price: rcv_msg.msg.price,
        expires_at: rcv_msg.msg.expiration,
        collection,
        token_id,
    };

    if escrow.is_expired(env.block_time) {
        return Err(ContractError::EscrowExpired);
    }

    store.put(escrow);

    Ok(
        Response {
            attributes: vec![
                Attribute {
                    key: "action".to_owned(),
                    value: "Send nfts to the arbiter contract".to_owned(),
                },
                Attribute { key: "token_id".to_owned(), value: rcv_msg.token_id },
                Attribute { key: "source_user".to_owned(), value: source },
            ],
            messages: Vec::new(),
        },
    )
}

/// Withdrawal: after expiry the source takes the unpaid item back.
pub fn execute_withdraw(
    store: &mut EscrowStore,
    env: &Env,
    info: &MessageInfo,
    collection: String,
    token_id: String,
) -> (r: Result<Response, ContractError>)
    requires
        old(store).wf(),
    ensures
        final(store).wf(),
        match spec_withdraw(old(store)@, env.block_time as int, info@, collection@, token_id@) {
            Ok(t) => r matches Ok(resp) && final(store)@ == t.records
                && resp.messages.deep_view() == t.messages && resp.attributes.deep_view() =~= seq![
                crate::msg::AttributeV { key: "action"@, value: "Withdraw NFT"@ },
                crate::msg::AttributeV { key: "token_id"@, value: token_id@ },
                crate::msg::AttributeV { key: "collection"@, value: collection@ },
                crate::msg::AttributeV { key: "source"@, value: info.sender@ },
            ],
            Err(ev) => (r matches Err(e) && e@ == ev) && final(store)@ == old(store)@,
        },
{
    match nonpayable(info) {
        Err(e) => {
            return Err(e);
        },
        Ok(_) => {},
    }

    let found = store.get(&collection, &token_id);
    match found {
        None => Err(ContractError::NoEscrow),
        Some(escrow) => {
            if !escrow.is_expired(env.block_time) {
                return Err(ContractError::EscrowNotExpired);
            }
            if info.sender != escrow.source {
                return Err(ContractError::Unauthorized);
            }
            store.delete(&collection, &token_id);

            let message = CosmosMsg::TransferNft {
                collection: collection.clone(),
                recipient: info.sender.clone(),
                token_id: token_id.clone(),
            };
            let r = Response {
                attributes: vec![
                    Attribute { key: "action".to_owned(), value: "Withdraw NFT".to_owned() },
                    Attribute { key: "token_id".to_owned(), value: token_id },
                    Attribute { key: "collection".to_owned(), value: collection },
                    Attribute { key: "source".to_owned(), value: info.sender.clone() },
                ],
                messages: vec![message],
            };
            Ok(r)
        },
    }
}

/// Approval: before expiry the recipient pays exactly the price and
/// receives the item; the source is paid.
pub fn execute_approve(
    store: &mut EscrowStore,
    config: &State,
    env: &Env,
    info: &MessageInfo,
    collection: String,
    token_id: String,
) -> (r: Result<Response, ContractError>)
    requires
        old(store).wf(),
    ensures
        final(store).wf(),
        match spec_approve(
            old(store)@,
            config@,
            env.block_time as int,
            info@,
            collection@,
            token_id@,
        ) {
            Ok(t) => r matches Ok(resp) && final(store)@ == t.records
                && resp.messages.deep_view() == t.messages && resp.attributes.deep_view() =~= seq![
                crate::msg::AttributeV { key: "action"@, value: "Withdraw NFT"@ },
                crate::msg::AttributeV { key: "token_id"@, value: token_id@ },
                crate::msg::AttributeV { key: "collection"@, value: collection@ },
                crate::msg::AttributeV { key: "source"@, value: info.sender@ },
            ],
            Err(ev) => (r matches Err(e) && e@ == ev) && final(store)@ == old(store)@,
        },
{
    let found = store.get(&collection, &token_id);
    match found {
        None => Err(ContractError::NoEscrow),
        Some(escrow) => {
            if escrow.is_expired(env.block_time) {
                return Err(ContractError::EscrowExpired);
            }
            match fund_check(config, info, escrow) {
                Err(e) => {
                    return Err(e);
                },
                Ok(_) => {},
            }
            if info.sender != escrow.recipient {
                return Err(ContractError::Unauthorized);
            }
            let source = escrow.source.clone();
            let price = escrow.price;
            store.delete(&collection, &token_id);

            let pay_msg = CosmosMsg::BankSend {
                to_address: source,
                denom: config.denom.clone(),
                amount: price,
            };
            let transfer_msg = CosmosMsg::TransferNft {
                collection: collection.clone(),
                recipient: info.sender.clone(),
                token_id: token_id.clone(),
            };
            let r = Response {
                attributes: vec![
                    Attribute { key: "action".to_owned(), value: "Withdraw NFT".to_owned() },
                    Attribute { key: "token_id".to_owned(), value: token_id },
                    Attribute { key: "collection".to_owned(), value: collection },
                    Attribute { key: "source".to_owned(), value: info.sender.clone() },
                ],
                messages: vec![pay_msg, transfer_msg],
            };
            Ok(r)
        },
    }
}

/// Configuration change: only the current administrator may replace the
/// configuration record.
pub fn execute_change_config(
    config: &mut State,
    info: &MessageInfo,
    state: State,
) -> (r: Result<Response, ContractError>)
    ensures
        match spec_change_config(old(config)@, info.sender@, state@) {
            Ok(c2) => r matches Ok(resp) && final(config)@ == c2
                && resp.messages.deep_view() == Seq::<CosmosMsgV>::empty()
                && resp.attributes.deep_view() =~= seq![
                crate::msg::AttributeV { key: "action"@, value: "chanage config"@ },
            ],
            Err(ev) => (r matches Err(e) && e@ == ev) && final(config)@ == old(config)@,
        },
{
    match only_owner(&*config, info) {
        Err(e) => {
            return Err(e);
        },
        Ok(_) => {},
    }
    *config = state;
    Ok(
        Response {
            attributes: vec![
                Attribute { key: "action".to_owned(), value: "chanage config".to_owned() },
            ],
            messages: Vec::new(),
        },
    )
}

/// The payment attached to an approval must be exactly one coin of the
/// configured denomination, equal to the escrow's price.
fn fund_check(state: &State, info: &MessageInfo, escrow: &Escrow) -> (r: Result<
    (),
    ContractError,
>)
    ensures
        match spec_fund_check(state@, info@, escrow@) {
            Ok(_) => r is Ok,
            Err(ev) => r matches Err(e) && e@ == ev,
        },
{
    if info.funds.len() != 1 {
        return Err(ContractError::OnlyOneCoinAvailable);
    }
    let sent_denom = &info.funds[0].denom;
    let sent_amount = info.funds[0].amount;
    if *sent_denom != state.denom {
        return Err(ContractError::NotExpectedDenom { denom: sent_denom.clone() });
    }
    if sent_amount != escrow.price {
        return Err(ContractError::NotEnoughFunds);
    }
    Ok(())
}

/// A withdrawal must not carry any payment.
fn nonpayable(info: &MessageInfo) -> (r: Result<(), ContractError>)
    ensures
        info.funds@.len() > 0 ==> (r matches Err(e) && e@ == ContractErrorV::NonPayable),
        info.funds@.len() == 0 ==> r is Ok,
{
    if info.funds.len() > 0 {
        Err(ContractError::NonPayable)
    } else {
        Ok(())
    }
}

/// Only the current administrator may change the configuration.
fn only_owner(state: &State, info: &MessageInfo) -> (r: Result<(), ContractError>)
    ensures
        info.sender@ != state@.admin ==> (r matches Err(e) && e@ == ContractErrorV::Unauthorized),
        info.sender@ == state@.admin ==> r is Ok,
{
    if info.sender != state.admin {
        Err(ContractError::Unauthorized)
    } else {
        Ok(())
    }
}

} // verus!
