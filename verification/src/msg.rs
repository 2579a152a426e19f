//! Inbound operations, host context, and outbound instructions.
//!
//! These are the plain-value shapes in which the host hands a decoded
//! request to the engine and takes back the result: attached coins, the
//! block time, the outbound transfer instructions and the observability
//! tags of a successful operation.

use vstd::prelude::*;
use crate::state::State;

verus! {

/// Mathematical view of a [`Coin`].
pub struct CoinV {
    pub denom: Seq<char>,
    pub amount: int,
}

/// An amount of one fungible denomination, as attached to a request.
#[derive(Debug, PartialEq)]
pub struct Coin {
    pub denom: String,
    pub amount: u128,
}

impl View for Coin {
    type V = CoinV;

    open spec fn view(&self) -> CoinV {
        CoinV { denom: self.denom@, amount: self.amount as int }
    }
}

impl DeepView for Coin {
    type V = CoinV;

    open spec fn deep_view(&self) -> CoinV {
        self.view()
    }
}

/// Mathematical view of a [`MessageInfo`].
pub struct MessageInfoV {
    pub sender: Seq<char>,
    pub funds: Seq<CoinV>,
}

/// Who invoked the current operation and what payment came attached.
pub struct MessageInfo {
    pub sender: String,
    pub funds: Vec<Coin>,
}

impl View for MessageInfo {
    type V = MessageInfoV;

    open spec fn view(&self) -> MessageInfoV {
        MessageInfoV { sender: self.sender@, funds: self.funds.deep_view() }
    }
}

/// The host context of the current invocation: the chain time at which it
/// runs.
pub struct Env {
    pub block_time: u64,
}

/// Mathematical view of an [`Attribute`].
pub struct AttributeV {
    pub key: Seq<char>,
    pub value: Seq<char>,
}

/// One structured observability tag of a successful operation.
#[derive(Debug, PartialEq)]
pub struct Attribute {
    pub key: String,
    pub value: String,
}

impl View for Attribute {
    type V = AttributeV;

    open spec fn view(&self) -> AttributeV {
        AttributeV { key: self.key@, value: self.value@ }
    }
}

impl DeepView for Attribute {
    type V = AttributeV;

    open spec fn deep_view(&self) -> AttributeV {
        self.view()
    }
}

/// Mathematical view of a [`CosmosMsg`].
pub enum CosmosMsgV {
    BankSend { to_address: Seq<char>, denom: Seq<char>, amount: int },
    TransferNft { collection: Seq<char>, recipient: Seq<char>, token_id: Seq<char> },
}

/// An outbound instruction for the host to carry out after the operation
/// commits.
#[derive(Debug, PartialEq)]
pub enum CosmosMsg {
    /// Fund transfer: pay `amount` of `denom` to `to_address`.
    BankSend { to_address: String, denom: String, amount: u128 },
    /// Asset transfer: direct the registry `collection` to move the item
    /// `token_id` to `recipient`.
    TransferNft { collection: String, recipient: String, token_id: String },
}

impl View for CosmosMsg {
    type V = CosmosMsgV;

    open spec fn view(&self) -> CosmosMsgV {
        match self {
            CosmosMsg::BankSend { to_address, denom, amount } => CosmosMsgV::BankSend {
                to_address: to_address@,
                denom: denom@,
                amount: *amount as int,
            },
            CosmosMsg::TransferNft { collection, recipient, token_id } => CosmosMsgV::TransferNft {
                collection: collection@,
                recipient: recipient@,
                token_id: token_id@,
            },
        }
    }
}

impl DeepView for CosmosMsg {
    type V = CosmosMsgV;

    open spec fn deep_view(&self) -> CosmosMsgV {
        self.view()
    }
}

/// The successful result of an operation: outbound instructions, in the
/// order the host must issue them, and observability tags.
#[derive(Debug)]
pub struct Response {
    pub attributes: Vec<Attribute>,
    pub messages: Vec<CosmosMsg>,
}

/// The request that initializes the engine's configuration.
#[derive(Debug, PartialEq)]
pub struct InstantiateMsg {
    pub admin: String,
    pub denom: String,
}

/// Mathematical view of an [`EscrowInfoMsg`].
pub struct EscrowInfoMsgV {
    pub recipient: Seq<char>,
    pub price: int,
    pub expiration: int,
}

/// The escrow terms carried inside a deposit notification.
#[derive(Debug, PartialEq)]
pub struct EscrowInfoMsg {
    pub recipient: String,
    pub price: u128,
    pub expiration: u64,
}

impl View for EscrowInfoMsg {
    type V = EscrowInfoMsgV;

    open spec fn view(&self) -> EscrowInfoMsgV {
        EscrowInfoMsgV {
            recipient: self.recipient@,
            price: self.price as int,
            expiration: self.expiration as int,
        }
    }
}

/// Mathematical view of a [`ReceiveNftMsg`].
pub struct ReceiveNftMsgV {
    pub sender: Seq<char>,
    pub token_id: Seq<char>,
    pub msg: EscrowInfoMsgV,
}

/// A transfer-in callback from the non-fungible-asset registry: the
/// depositing party, the item, and the decoded escrow terms.
#[derive(Debug, PartialEq)]
pub struct ReceiveNftMsg {
    pub sender: String,
    pub token_id: String,
    pub msg: EscrowInfoMsg,
}

impl View for ReceiveNftMsg {
    type V = ReceiveNftMsgV;

    open spec fn view(&self) -> ReceiveNftMsgV {
        ReceiveNftMsgV { sender: self.sender@, token_id: self.token_id@, msg: self.msg@ }
    }
}

/// An inbound state-changing operation.
#[derive(Debug)]
pub enum ExecuteMsg {
    /// A deposit notification from the asset registry; the registry
    /// itself is the sender of the enclosing invocation.
    ReceiveNft(ReceiveNftMsg),
    /// Return an expired, unpaid item to its source.
    WithdrawNft { collection: String, token_id: String },
    /// Pay for an item and receive it.
    Approve { collection: String, token_id: String },
    /// Replace the configuration record.
    ChangeConfig { state: State },
}

/// Offset cursor for pagination across collections.
#[derive(Debug, PartialEq)]
pub struct CollectionOffset {
    pub collection: String,
    pub token_id: String,
}

/// An inbound read-only query.
#[derive(Debug)]
#[allow(inconsistent_fields)]
pub enum QueryMsg {
    /// The current configuration record.
    GetStateInfo {},
    /// The escrow stored for one item, if any.
    Escrow { collection: String, token_id: String },
    /// Escrows of a collection in ascending token order, after a token.
    Escrows { collection: String, start_after: Option<String>, limit: Option<u32> },
    /// Escrows of a collection in descending token order, before a token.
    ReverseEscrows { collection: String, start_before: Option<String>, limit: Option<u32> },
    /// How many escrows a collection holds.
    EscrowsCount { collection: String },
    /// Escrows deposited by one source, in ascending key order.
    EscrowsBySource {
        source: String,
        start_after: Option<CollectionOffset>,
        limit: Option<u32>,
    },
    /// Escrows payable by one recipient, in ascending key order.
    EscrowsByRecipient {
        recipient: String,
        start_after: Option<CollectionOffset>,
        limit: Option<u32>,
    },
}

/// Answer to [`QueryMsg::Escrow`].
#[derive(Debug)]
pub struct EscrowResponse {
    pub escrow: Option<crate::state::Escrow>,
}

/// Answer to the paginated escrow queries.
#[derive(Debug)]
pub struct EscrowsResponse {
    pub escrows: Vec<crate::state::Escrow>,
}

/// Answer to [`QueryMsg::EscrowsCount`].
#[derive(Debug, PartialEq)]
pub struct EscrowsCountResponse {
    pub count: u32,
}

/// Answer to a [`QueryMsg`]: one variant per query.
#[derive(Debug)]
pub enum QueryAnswer {
    StateInfo(State),
    Escrow(EscrowResponse),
    Escrows(EscrowsResponse),
    Count(EscrowsCountResponse),
}

} // verus!
