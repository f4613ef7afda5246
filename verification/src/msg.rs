//! Inbound requests, outbound instructions, and query responses.

use vstd::prelude::*;
use vstd::string::StringSliceAdditionalSpecFns;

use crate::balance::{Balance, Coin, Cw20Coin, clone_strings};

verus! {

/// The initialization message.  The engine needs no setup parameters.
pub struct InitMsg {}

/// A request to create an escrow.
pub struct CreateMsg {
    /// A caller-chosen, human-readable name for the escrow.
    pub id: String,
    /// The identity that may claw back or burn before `end_time`.
    pub backup: String,
    /// The eventual receiver of the escrowed assets.
    pub holder: String,
    /// The duration of the clawback window, in seconds.
    pub clawback_period: u64,
    /// Tokenized-asset contracts accepted during a top-up, besides the
    /// asset the escrow is funded with.
    pub cw20_whitelist: Option<Vec<String>>,
}

impl CreateMsg {
    /// The requested whitelist as a plain sequence; absent means empty.
    pub open spec fn spec_whitelist(&self) -> Seq<Seq<char>> {
        match self.cw20_whitelist {
            Some(v) => v.deep_view(),
            None => Seq::empty(),
        }
    }

    /// The requested whitelist as an owned list; absent means empty.
    pub fn canonical_whitelist(&self) -> (r: Vec<String>)
        ensures
            r.deep_view() == self.spec_whitelist(),
    {
        match &self.cw20_whitelist {
            Some(v) => {
                let r = clone_strings(v);
                proof {
                    assert(r.deep_view() =~= v.deep_view());
                }
                r
            },
            None => {
                let r: Vec<String> = Vec::new();
                proof {
                    assert(r.deep_view() =~= Seq::<Seq<char>>::empty());
                }
                r
            },
        }
    }
}

/// A deposit notification from a tokenized-asset contract, with its
/// payload already decoded by the host's transport layer.
pub struct Cw20ReceiveMsg {
    /// The identity that sent the tokens to the asset contract.
    pub sender: String,
    /// The quantity of tokens deposited.
    pub amount: u128,
    /// The decoded instruction, or `None` when the notification carried
    /// no payload.
    pub msg: Option<ReceiveMsg>,
}

/// The operations of the escrow state machine.
pub enum HandleMsg {
    Create(CreateMsg),
    /// Adds all sent native tokens to the escrow.
    TopUp { id: String },
    /// Sends all escrowed tokens to the holder (at or after the end time).
    Withdraw { id: String },
    /// Extends the end time by one more clawback period.
    Refresh { id: String },
    /// Destroys the escrowed tokens.
    Burn { id: String },
    /// Moves assets between two escrows with the same backup and period.
    ClawbackTransfer { from_id: String, to_id: String, amount: Balance },
    /// A deposit notification from a tokenized-asset contract.
    Receive(Cw20ReceiveMsg),
}

/// The operations a tokenized-asset deposit notification may carry.
pub enum ReceiveMsg {
    Create(CreateMsg),
    /// Adds the deposited tokens to the escrow.
    TopUp { id: String },
}

/// The read-only queries.
pub enum QueryMsg {
    /// All registered escrow ids, ascending.
    List,
    /// The full details of one escrow.
    Details { id: String },
}

/// The answer to a `List` query.
#[derive(Debug, PartialEq, Eq)]
pub struct ListResponse {
    /// All registered escrow ids, ascending.
    pub clawbacks: Vec<String>,
}

/// The answer to a `Details` query.
#[derive(Debug, PartialEq, Eq)]
pub struct DetailsResponse {
    pub id: String,
    pub backup: String,
    pub holder: String,
    pub end_time: u64,
    pub clawback_period: u64,
    pub native_balance: Vec<Coin>,
    pub cw20_balance: Vec<Cw20Coin>,
    pub cw20_whitelist: Vec<String>,
}

/// The answer to a query, by query kind.
pub enum QueryAnswer {
    List(ListResponse),
    Details(DetailsResponse),
}

/// One key/value event attribute of a response.
#[derive(Debug, PartialEq, Eq)]
pub struct Attribute {
    pub key: String,
    pub value: String,
}

/// Builds one event attribute.
pub fn attr(key: &str, value: &str) -> (r: Attribute)
    ensures
        r.key@ == key@,
        r.value@ == value@,
{
    Attribute { key: key.to_owned(), value: value.to_owned() }
}

/// An outbound instruction for the host's transfer-execution layer.
#[derive(Debug, PartialEq, Eq)]
pub enum CosmosMsg {
    /// Send native coins from the contract's own address to a recipient.
    BankSend { from_address: String, to_address: String, amount: Vec<Coin> },
    /// Instruct a tokenized-asset contract to transfer tokens to a
    /// recipient.
    Cw20Transfer { contract_addr: String, recipient: String, amount: u128 },
}

/// The result of a state-machine operation: outbound instructions and
/// event attributes.
#[derive(Debug, PartialEq, Eq)]
pub struct HandleResponse {
    pub messages: Vec<CosmosMsg>,
    pub attributes: Vec<Attribute>,
}

/// The result of initialization: always empty for this engine.
pub struct InitResponse {
    pub messages: Vec<CosmosMsg>,
    pub attributes: Vec<Attribute>,
}

/// The context of one operation: the current block time and the
/// contract's own address.
pub struct Env {
    /// Current block time, in seconds since the UNIX epoch.
    pub block_time: u64,
    /// The address custody is held under, used as the sender of outbound
    /// native transfers.
    pub contract_address: String,
}

/// The caller's identity and the native coins sent along with the call.
pub struct MessageInfo {
    pub sender: String,
    pub sent_funds: Vec<Coin>,
}

/// Whether an escrow id has a well-formed length: 3 to 20 bytes.
pub fn is_valid_name(name: &str) -> (r: bool)
    ensures
        r == (3 <= name.spec_bytes().len() <= 20),
{
    let bytes = name.as_bytes();
    if bytes.len() < 3 || bytes.len() > 20 {
        return false;
    }
    true
}

} // verus!
