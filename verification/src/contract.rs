//! The escrow state machine: the six operations, the wrapped-deposit
//! entry point, and the read-only queries.
//!
//! Every operation is a total function of (registry, request, caller,
//! time) to (new registry, result, outbound instructions).  A failed
//! precondition leaves the registry exactly as it was.

use vstd::prelude::*;

use crate::balance::{
    Balance, BalanceModel, Coin, Cw20Coin, GenericBalance, clone_coins, clone_cw20s, coin_entries,
    cw20_entries, distinct_keys,
};
use crate::error::ContractError;
use crate::msg::{
    Attribute, CosmosMsg, CreateMsg, Cw20ReceiveMsg, DetailsResponse, Env, HandleMsg,
    HandleResponse, InitMsg, InitResponse, ListResponse, MessageInfo, QueryAnswer, QueryMsg,
    ReceiveMsg, attr,
};
use crate::state::{
    Clawback, ClawbackModel, Registry, all_clawback_ids, contains_string, ids_contain,
};

verus! {

// ------------------------------------------------------------------
// Spec: what each operation builds
// ------------------------------------------------------------------

/// The funding of a freshly created escrow, as a ledger model.
pub open spec fn funding_model(funding: Balance) -> BalanceModel {
    match funding {
        Balance::Native(v) => BalanceModel { native: coin_entries(v@), cw20: Seq::empty() },
        Balance::Cw20(c) => BalanceModel { native: Seq::empty(), cw20: seq![c@] },
    }
}

/// A funding balance is acceptable when its keys are distinct (native
/// batches arrive normalized from the host).
pub open spec fn funding_distinct(funding: Balance) -> bool {
    match funding {
        Balance::Native(v) => distinct_keys(coin_entries(v@)),
        Balance::Cw20(_) => true,
    }
}

/// The whitelist of a freshly created escrow: the requested list, with a
/// tokenized funding asset appended when not already present.
pub open spec fn created_whitelist(base: Seq<Seq<char>>, funding: Balance) -> Seq<Seq<char>> {
    match funding {
        Balance::Native(_) => base,
        Balance::Cw20(c) => if ids_contain(base, c.address@) {
            base
        } else {
            base.push(c.address@)
        },
    }
}

/// The escrow record that a create request builds at the given time.
pub open spec fn created_clawback(msg: CreateMsg, time: u64, funding: Balance) -> ClawbackModel {
    ClawbackModel {
        backup: msg.backup@,
        holder: msg.holder@,
        end_time: (time + msg.clawback_period) as u64,
        clawback_period: msg.clawback_period,
        balance: funding_model(funding),
        whitelist: created_whitelist(msg.spec_whitelist(), funding),
    }
}

/// The escrow after a top-up merged a balance into its ledger.
pub open spec fn topped_up(cb: ClawbackModel, balance: Balance) -> ClawbackModel {
    ClawbackModel {
        backup: cb.backup,
        holder: cb.holder,
        end_time: cb.end_time,
        clawback_period: cb.clawback_period,
        balance: cb.balance.add_balance(balance),
        whitelist: cb.whitelist,
    }
}

/// The escrow after a refresh extended its end time by one more period.
pub open spec fn refreshed(cb: ClawbackModel) -> ClawbackModel {
    ClawbackModel {
        backup: cb.backup,
        holder: cb.holder,
        end_time: (cb.end_time + cb.clawback_period) as u64,
        clawback_period: cb.clawback_period,
        balance: cb.balance,
        whitelist: cb.whitelist,
    }
}

/// The escrow with its ledger replaced.
pub open spec fn with_balance(cb: ClawbackModel, balance: BalanceModel) -> ClawbackModel {
    ClawbackModel {
        backup: cb.backup,
        holder: cb.holder,
        end_time: cb.end_time,
        clawback_period: cb.clawback_period,
        balance: balance,
        whitelist: cb.whitelist,
    }
}

/// A tokenized top-up is rejected when the asset contract is outside the
/// escrow's whitelist; native top-ups never consult the whitelist.
pub open spec fn top_up_rejected(cb: ClawbackModel, balance: Balance) -> bool {
    match balance {
        Balance::Cw20(c) => !cb.whitelisted(c.address@),
        Balance::Native(_) => false,
    }
}

/// The asset amount that a wrapped deposit notification carries: the
/// calling asset contract is the key, the deposited quantity the amount.
pub open spec fn receive_balance(info: MessageInfo, wrapper: Cw20ReceiveMsg) -> Balance {
    Balance::Cw20(Cw20Coin { address: info.sender, amount: wrapper.amount })
}

// ------------------------------------------------------------------
// Spec: response shapes
// ------------------------------------------------------------------

/// The event attributes `[("action", action), ("id", id)]`.
pub open spec fn attrs_action_id(attrs: Seq<Attribute>, action: Seq<char>, id: Seq<char>) -> bool {
    &&& attrs.len() == 2
    &&& attrs[0].key@ == "action"@
    &&& attrs[0].value@ == action
    &&& attrs[1].key@ == "id"@
    &&& attrs[1].value@ == id
}

/// The event attributes `[("action", action), ("id", id), ("to", to)]`.
pub open spec fn attrs_action_id_to(
    attrs: Seq<Attribute>,
    action: Seq<char>,
    id: Seq<char>,
    to: Seq<char>,
) -> bool {
    &&& attrs.len() == 3
    &&& attrs[0].key@ == "action"@
    &&& attrs[0].value@ == action
    &&& attrs[1].key@ == "id"@
    &&& attrs[1].value@ == id
    &&& attrs[2].key@ == "to"@
    &&& attrs[2].value@ == to
}

/// The event attributes of a clawback transfer, naming both escrows.
pub open spec fn attrs_transfer(
    attrs: Seq<Attribute>,
    from_id: Seq<char>,
    to_id: Seq<char>,
) -> bool {
    &&& attrs.len() == 3
    &&& attrs[0].key@ == "action"@
    &&& attrs[0].value@ == "transfer"@
    &&& attrs[1].key@ == "from_id"@
    &&& attrs[1].value@ == from_id
    &&& attrs[2].key@ == "to_id"@
    &&& attrs[2].value@ == to_id
}

/// The message at position `nbank + j` instructs the asset contract of
/// entry `e` to transfer the entry's quantity to `to`.
pub open spec fn cw20_send_msg_ok(
    msgs: Seq<CosmosMsg>,
    nbank: int,
    to: Seq<char>,
    e: crate::balance::EntryModel,
    j: int,
) -> bool {
    msgs[nbank + j] matches CosmosMsg::Cw20Transfer { contract_addr, recipient, amount }
        && contract_addr@ == e.key && recipient@ == to && amount == e.amount
}

/// The outbound instructions that drain a ledger to `to`: one bank send
/// for all native entries (when any), then one transfer instruction per
/// tokenized entry, in ledger order.
pub open spec fn spec_send_msgs(
    msgs: Seq<CosmosMsg>,
    from: Seq<char>,
    to: Seq<char>,
    bal: BalanceModel,
) -> bool {
    let nbank: int = if bal.native.len() > 0 {
        1
    } else {
        0
    };
    &&& msgs.len() == nbank + bal.cw20.len()
    &&& (bal.native.len() > 0 ==> (msgs[0] matches CosmosMsg::BankSend {
        from_address,
        to_address,
        amount,
    } && from_address@ == from && to_address@ == to && coin_entries(amount@) == bal.native))
    &&& (forall|i: int|
        0 <= i < bal.cw20.len() ==> #[trigger] cw20_send_msg_ok(msgs, nbank, to, bal.cw20[i], i))
}

// ------------------------------------------------------------------
// Spec: the outcome of each operation
// ------------------------------------------------------------------

/// What `try_create` does: reject empty funding, reject a duplicate id
/// (leaving the registry unchanged either way), or insert the new escrow.
pub open spec fn create_outcome(
    o: Registry,
    n: Registry,
    r: Result<HandleResponse, ContractError>,
    time: u64,
    msg: CreateMsg,
    funding: Balance,
) -> bool {
    if funding.spec_is_empty() {
        &&& r is Err
        &&& r->Err_0 == ContractError::EmptyBalance
        &&& n.model() == o.model()
    } else if o.has(msg.id@) {
        &&& r is Err
        &&& r->Err_0 == ContractError::AlreadyInUse
        &&& n.model() == o.model()
    } else {
        &&& r is Ok
        &&& n.as_map() == o.as_map().insert(msg.id@, created_clawback(msg, time, funding))
        &&& n.has(msg.id@)
        &&& r->Ok_0.messages@.len() == 0
        &&& attrs_action_id(r->Ok_0.attributes@, "create"@, msg.id@)
    }
}

/// What `try_top_up` does: reject an empty amount, an unknown id, or a
/// non-whitelisted tokenized asset (leaving the registry unchanged), or
/// merge the amount into the escrow's ledger.
pub open spec fn top_up_outcome(
    o: Registry,
    n: Registry,
    r: Result<HandleResponse, ContractError>,
    id: Seq<char>,
    balance: Balance,
) -> bool {
    if balance.spec_is_empty() {
        &&& r is Err
        &&& r->Err_0 == ContractError::EmptyBalance
        &&& n.model() == o.model()
    } else if !o.has(id) {
        &&& r is Err
        &&& r->Err_0 == ContractError::NotFound
        &&& n.model() == o.model()
    } else if top_up_rejected(o.get(id), balance) {
        &&& r is Err
        &&& r->Err_0 == ContractError::NotInWhitelist
        &&& n.model() == o.model()
    } else {
        &&& r is Ok
        &&& n.as_map() == o.as_map().insert(id, topped_up(o.get(id), balance))
        &&& r->Ok_0.messages@.len() == 0
        &&& attrs_action_id(r->Ok_0.attributes@, "top_up"@, id)
    }
}

/// What `try_withdraw` does: only the holder, at or after `end_time`,
/// may withdraw; then the record is deleted and the drained balance is
/// sent to the holder.  Every failure leaves the registry unchanged.
pub open spec fn withdraw_outcome(
    o: Registry,
    n: Registry,
    r: Result<HandleResponse, ContractError>,
    time: u64,
    sender: Seq<char>,
    id: Seq<char>,
    contract: Seq<char>,
) -> bool {
    if !o.has(id) {
        &&& r is Err
        &&& r->Err_0 == ContractError::NotFound
        &&& n.model() == o.model()
    } else if sender != o.get(id).holder {
        &&& r is Err
        &&& r->Err_0 == ContractError::Unauthorized
        &&& n.model() == o.model()
    } else if time < o.get(id).end_time {
        &&& r is Err
        &&& r->Err_0 == ContractError::NotExpired
        &&& n.model() == o.model()
    } else {
        &&& r is Ok
        &&& n.as_map() == o.as_map().remove(id)
        &&& !n.has(id)
        &&& spec_send_msgs(r->Ok_0.messages@, contract, o.get(id).holder, o.get(id).balance)
        &&& attrs_action_id_to(r->Ok_0.attributes@, "withdraw"@, id, o.get(id).holder)
    }
}

/// What `try_refresh` does: the holder or the backup, while the escrow
/// is not yet expired, may extend `end_time` by one more clawback
/// period.  Every failure leaves the registry unchanged.
pub open spec fn refresh_outcome(
    o: Registry,
    n: Registry,
    r: Result<HandleResponse, ContractError>,
    time: u64,
    sender: Seq<char>,
    id: Seq<char>,
) -> bool {
    if !o.has(id) {
        &&& r is Err
        &&& r->Err_0 == ContractError::NotFound
        &&& n.model() == o.model()
    } else if sender != o.get(id).holder && sender != o.get(id).backup {
        &&& r is Err
        &&& r->Err_0 == ContractError::Unauthorized
        &&& n.model() == o.model()
    } else if time > o.get(id).end_time {
        &&& r is Err
        &&& r->Err_0 == ContractError::Expired
        &&& n.model() == o.model()
    } else {
        &&& r is Ok
        &&& n.as_map() == o.as_map().insert(id, refreshed(o.get(id)))
        &&& r->Ok_0.messages@.len() == 0
        &&& attrs_action_id(r->Ok_0.attributes@, "refresh"@, id)
    }
}

/// What `try_burn` does: only the backup, and only before expiry, may
/// destroy the escrowed assets; the record is deleted and nothing is
/// sent out.  Every failure leaves the registry unchanged.
pub open spec fn burn_outcome(
    o: Registry,
    n: Registry,
    r: Result<HandleResponse, ContractError>,
    time: u64,
    sender: Seq<char>,
    id: Seq<char>,
) -> bool {
    if !o.has(id) {
        &&& r is Err
        &&& r->Err_0 == ContractError::NotFound
        &&& n.model() == o.model()
    } else if sender != o.get(id).backup {
        &&& r is Err
        &&& r->Err_0 == ContractError::Unauthorized
        &&& n.model() == o.model()
    } else if time > o.get(id).end_time {
        &&& r is Err
        &&& r->Err_0 == ContractError::Expired
        &&& n.model() == o.model()
    } else {
        &&& r is Ok
        &&& n.as_map() == o.as_map().remove(id)
        &&& !n.has(id)
        &&& r->Ok_0.messages@.len() == 0
        &&& attrs_action_id(r->Ok_0.attributes@, "burn"@, id)
    }
}

/// Whether the caller may move assets out of the source escrow: its
/// backup may always claw back; its holder may transfer laterally while
/// the escrow is not yet expired.
pub open spec fn transfer_authorized(f: ClawbackModel, sender: Seq<char>, time: u64) -> bool {
    sender == f.backup || (sender == f.holder && time <= f.end_time)
}

/// What `try_transfer` does: move an amount between two escrows of the
/// same clawback ring (same backup, same period), debiting one ledger
/// and crediting the other; no outbound instruction is produced and no
/// end time changes.  Every failure leaves the registry unchanged.
pub open spec fn transfer_outcome(
    o: Registry,
    n: Registry,
    r: Result<HandleResponse, ContractError>,
    time: u64,
    sender: Seq<char>,
    from_id: Seq<char>,
    to_id: Seq<char>,
    amount: Balance,
) -> bool {
    if !o.has(from_id) || !o.has(to_id) {
        &&& r is Err
        &&& r->Err_0 == ContractError::NotFound
        &&& n.model() == o.model()
    } else if !transfer_authorized(o.get(from_id), sender, time) {
        &&& r is Err
        &&& r->Err_0 == ContractError::Unauthorized
        &&& n.model() == o.model()
    } else if o.get(from_id).backup != o.get(to_id).backup || o.get(from_id).clawback_period
        != o.get(to_id).clawback_period {
        &&& r is Err
        &&& r->Err_0 == ContractError::ContractMismatch
        &&& n.model() == o.model()
    } else {
        match o.get(from_id).balance.remove_balance(&amount) {
            None => {
                &&& r is Err
                &&& r->Err_0 == ContractError::InsufficientFunds
                &&& n.as_map() == o.as_map()
            },
            Some(fb) => {
                let f2 = with_balance(o.get(from_id), fb);
                let tbase = if to_id == from_id {
                    f2
                } else {
                    o.get(to_id)
                };
                let t2 = with_balance(tbase, tbase.balance.add_balance(amount));
                &&& r is Ok
                &&& n.as_map() == o.as_map().insert(from_id, f2).insert(to_id, t2)
                &&& r->Ok_0.messages@.len() == 0
                &&& attrs_transfer(r->Ok_0.attributes@, from_id, to_id)
            },
        }
    }
}

/// What `try_receive` does: an absent payload is rejected; otherwise the
/// deposited tokenized amount funds a create or a top-up, with the asset
/// contract (the direct caller) as the asset key.
pub open spec fn receive_outcome(
    o: Registry,
    n: Registry,
    r: Result<HandleResponse, ContractError>,
    time: u64,
    info: MessageInfo,
    wrapper: Cw20ReceiveMsg,
) -> bool {
    match wrapper.msg {
        None => {
            &&& r is Err
            &&& r->Err_0 == ContractError::NoData
            &&& n.model() == o.model()
        },
        Some(ReceiveMsg::Create(m)) => create_outcome(
            o,
            n,
            r,
            time,
            m,
            receive_balance(info, wrapper),
        ),
        Some(ReceiveMsg::TopUp { id }) => top_up_outcome(
            o,
            n,
            r,
            id@,
            receive_balance(info, wrapper),
        ),
    }
}

// ------------------------------------------------------------------
// Spec: machine-limit preconditions of each operation
// ------------------------------------------------------------------

/// The machine limits a create must respect: the end time fits in a
/// 64-bit second count, and the funding keys are distinct.
pub open spec fn create_requires(time: u64, msg: CreateMsg, funding: Balance) -> bool {
    &&& time + msg.clawback_period <= u64::MAX
    &&& funding_distinct(funding)
}

/// The machine limit a top-up must respect: merging into the existing
/// ledger stays within the range of a quantity.
pub open spec fn top_up_requires(o: Registry, id: Seq<char>, balance: Balance) -> bool {
    o.has(id) ==> o.get(id).balance.fits_add_balance(balance)
}

/// The machine limit a refresh must respect: the extended end time fits
/// in a 64-bit second count.
pub open spec fn refresh_requires(o: Registry, id: Seq<char>) -> bool {
    o.has(id) ==> o.get(id).end_time + o.get(id).clawback_period <= u64::MAX
}

/// The machine limit a transfer must respect: crediting the destination
/// ledger stays within the range of a quantity.
pub open spec fn transfer_requires(
    o: Registry,
    from_id: Seq<char>,
    to_id: Seq<char>,
    amount: Balance,
) -> bool {
    (o.has(from_id) && o.has(to_id)) ==> match o.get(from_id).balance.remove_balance(&amount) {
        Some(fb) => {
            let tbase = if to_id == from_id {
                fb
            } else {
                o.get(to_id).balance
            };
            tbase.fits_add_balance(amount)
        },
        None => true,
    }
}

/// The machine limits of a wrapped deposit, by its payload.
pub open spec fn receive_requires(
    o: Registry,
    time: u64,
    info: MessageInfo,
    wrapper: Cw20ReceiveMsg,
) -> bool {
    match wrapper.msg {
        None => true,
        Some(ReceiveMsg::Create(m)) => create_requires(time, m, receive_balance(info, wrapper)),
        Some(ReceiveMsg::TopUp { id }) => top_up_requires(o, id@, receive_balance(info, wrapper)),
    }
}

/// The machine limits of a request, by operation.
pub open spec fn handle_requires(o: Registry, env: Env, info: MessageInfo, msg: HandleMsg) -> bool {
    match msg {
        HandleMsg::Create(m) => create_requires(
            env.block_time,
            m,
            Balance::Native(info.sent_funds),
        ),
        HandleMsg::TopUp { id } => top_up_requires(o, id@, Balance::Native(info.sent_funds)),
        HandleMsg::Withdraw { id: _ } => true,
        HandleMsg::Refresh { id } => refresh_requires(o, id@),
        HandleMsg::Burn { id: _ } => true,
        HandleMsg::ClawbackTransfer { from_id, to_id, amount } => transfer_requires(
            o,
            from_id@,
            to_id@,
            amount,
        ),
        HandleMsg::Receive(w) => receive_requires(o, env.block_time, info, w),
    }
}

/// What a request does, by operation.
pub open spec fn handle_outcome(
    o: Registry,
    n: Registry,
    r: Result<HandleResponse, ContractError>,
    env: Env,
    info: MessageInfo,
    msg: HandleMsg,
) -> bool {
    match msg {
        HandleMsg::Create(m) => create_outcome(
            o,
            n,
            r,
            env.block_time,
            m,
            Balance::Native(info.sent_funds),
        ),
        HandleMsg::TopUp { id } => top_up_outcome(o, n, r, id@, Balance::Native(info.sent_funds)),
        HandleMsg::Withdraw { id } => withdraw_outcome(
            o,
            n,
            r,
            env.block_time,
            info.sender@,
            id@,
            env.contract_address@,
        ),
        HandleMsg::Refresh { id } => refresh_outcome(o, n, r, env.block_time, info.sender@, id@),
        HandleMsg::Burn { id } => burn_outcome(o, n, r, env.block_time, info.sender@, id@),
        HandleMsg::ClawbackTransfer { from_id, to_id, amount } => transfer_outcome(
            o,
            n,
            r,
            env.block_time,
            info.sender@,
            from_id@,
            to_id@,
            amount,
        ),
        HandleMsg::Receive(w) => receive_outcome(o, n, r, env.block_time, info, w),
    }
}

// ------------------------------------------------------------------
// Laws
// ------------------------------------------------------------------

/// Law: every valid create with non-empty funding registers an escrow
/// that reports exactly the supplied backup, holder and clawback period,
/// an end time of creation time plus period, and the funding balance —
/// which is what a subsequent details query returns (see the contract of
/// `query_details`).
pub proof fn law_create_then_details(
    o: Registry,
    n: Registry,
    r: Result<HandleResponse, ContractError>,
    time: u64,
    msg: CreateMsg,
    funding: Balance,
)
    requires
        create_outcome(o, n, r, time, msg, funding),
        !funding.spec_is_empty(),
        !o.has(msg.id@),
        time + msg.clawback_period <= u64::MAX,
    ensures
        r is Ok,
        n.has(msg.id@),
        n.get(msg.id@).backup == msg.backup@,
        n.get(msg.id@).holder == msg.holder@,
        n.get(msg.id@).clawback_period == msg.clawback_period,
        n.get(msg.id@).end_time == time + msg.clawback_period,
        n.get(msg.id@).balance == funding_model(funding),
{
    assert(n.as_map().dom().contains(msg.id@));
    assert(n.as_map()[msg.id@] == created_clawback(msg, time, funding));
    assert(n.get(msg.id@) == n.as_map()[msg.id@]);
}

// ------------------------------------------------------------------
// Exec: helpers
// ------------------------------------------------------------------

/// Builds the attribute pair `[("action", action), ("id", id)]`.
fn action_id_attrs(action: &str, id: &str) -> (r: Vec<Attribute>)
    ensures
        attrs_action_id(r@, action@, id@),
{
    let mut attributes: Vec<Attribute> = Vec::new();
    attributes.push(attr("action", action));
    attributes.push(attr("id", id));
    attributes
}

/// Builds the outbound instructions that drain `balance` to `to`.
#[verifier::loop_isolation(false)]
pub fn send_tokens(from: &String, to: &String, balance: &GenericBalance) -> (r: Vec<CosmosMsg>)
    ensures
        spec_send_msgs(r@, from@, to@, balance@),
{
    let mut msgs: Vec<CosmosMsg> = Vec::new();
    let ghost nbank: int = if balance@.native.len() > 0 {
        1int
    } else {
        0int
    };
    if balance.native.len() > 0 {
        msgs.push(
            CosmosMsg::BankSend {
                from_address: from.clone(),
                to_address: to.clone(),
                amount: clone_coins(&balance.native),
            },
        );
    }
    let n = balance.cw20.len();
    let mut i: usize = 0;
    while i < n
        invariant
            msgs@.len() == nbank + i,
            i <= n,
            balance@.native.len() > 0 ==> (msgs@[0] matches CosmosMsg::BankSend {
                from_address,
                to_address,
                amount,
            } && from_address@ == from@ && to_address@ == to@ && coin_entries(amount@)
                == balance@.native),
            forall|j: int|
                0 <= j < i ==> #[trigger] cw20_send_msg_ok(msgs@, nbank, to@, balance@.cw20[j], j),
        decreases n - i,
    {
        proof {
            assert(balance@.cw20[i as int] == balance.cw20@[i as int]@);
        }
        let ghost prev = msgs@;
        msgs.push(
            CosmosMsg::Cw20Transfer {
                contract_addr: balance.cw20[i].address.clone(),
                recipient: to.clone(),
                amount: balance.cw20[i].amount,
            },
        );
        proof {
            assert(msgs@[nbank + i as int] == msgs@.last());
            assert(cw20_send_msg_ok(msgs@, nbank, to@, balance@.cw20[i as int], i as int));
            assert forall|j: int| 0 <= j < i + 1 implies #[trigger] cw20_send_msg_ok(
                msgs@,
                nbank,
                to@,
                balance@.cw20[j],
                j,
            ) by {
                if j < i {
                    assert(msgs@[nbank + j] == prev[nbank + j]);
                    assert(cw20_send_msg_ok(prev, nbank, to@, balance@.cw20[j], j));
                }
            }
        }
        i = i + 1;
    }
    msgs
}

// ------------------------------------------------------------------
// Exec: the operations
// ------------------------------------------------------------------

/// Initializes the engine.  There is nothing to configure, so the
/// response is empty; version bookkeeping belongs to the host.
pub fn init(_msg: InitMsg) -> (r: InitResponse)
    ensures
        r.messages@.len() == 0,
        r.attributes@.len() == 0,
{
    InitResponse { messages: Vec::new(), attributes: Vec::new() }
}

/// Creates a new escrow funded with `balance`, on behalf of `_sender`.
pub fn try_create(
    registry: &mut Registry,
    env: &Env,
    msg: CreateMsg,
    balance: Balance,
    _sender: &String,
) -> (r: Result<HandleResponse, ContractError>)
    requires
        old(registry).wf(),
        create_requires(env.block_time, msg, balance),
    ensures
        final(registry).wf(),
        create_outcome(*old(registry), *final(registry), r, env.block_time, msg, balance),
{
    if balance.is_empty() {
        return Err(ContractError::EmptyBalance);
    }
    let mut cw20_whitelist = msg.canonical_whitelist();
    let clawback_balance: GenericBalance = match &balance {
        Balance::Native(coins) => GenericBalance { native: clone_coins(coins), cw20: Vec::new() },
        Balance::Cw20(token) => {
            if !contains_string(&cw20_whitelist, &token.address) {
                cw20_whitelist.push(token.address.clone());
            }
            let mut cw20: Vec<Cw20Coin> = Vec::new();
            cw20.push(token.clone());
            GenericBalance { native: Vec::new(), cw20 }
        },
    };
    proof {
        assert(clawback_balance@ =~~= funding_model(balance));
        assert(cw20_whitelist.deep_view() =~~= created_whitelist(msg.spec_whitelist(), balance));
        assert(clawback_balance.wf());
    }
    let clawback = Clawback {
        backup: msg.backup.clone(),
        holder: msg.holder.clone(),
        clawback_period: msg.clawback_period,
        end_time: env.block_time + msg.clawback_period,
        balance: clawback_balance,
        cw20_whitelist,
    };
    proof {
        assert(clawback@ =~~= created_clawback(msg, env.block_time, balance));
    }
    match registry.create(msg.id.clone(), clawback) {
        Ok(_) => {
            let attributes = action_id_attrs("create", msg.id.as_str());
            Ok(HandleResponse { messages: Vec::new(), attributes })
        },
        Err(_) => Err(ContractError::AlreadyInUse),
    }
}

/// Adds `balance` to the escrow named `id`.
pub fn try_top_up(registry: &mut Registry, id: String, balance: Balance) -> (r: Result<
    HandleResponse,
    ContractError,
>)
    requires
        old(registry).wf(),
        top_up_requires(*old(registry), id@, balance),
    ensures
        final(registry).wf(),
        top_up_outcome(*old(registry), *final(registry), r, id@, balance),
{
    if balance.is_empty() {
        return Err(ContractError::EmptyBalance);
    }
    let rejected = match registry.load(&id) {
        None => {
            return Err(ContractError::NotFound);
        },
        Some(cb) => match &balance {
            Balance::Cw20(token) => !cb.is_whitelisted(&token.address),
            Balance::Native(_) => false,
        },
    };
    if rejected {
        return Err(ContractError::NotInWhitelist);
    }
    match registry.take(&id) {
        Some(mut clawback) => {
            clawback.balance.add_tokens(balance);
            proof {
                assert(clawback@ =~~= topped_up(old(registry).get(id@), balance));
            }
            registry.save(&id, clawback);
            proof {
                assert(registry.as_map() =~= old(registry).as_map().insert(
                    id@,
                    topped_up(old(registry).get(id@), balance),
                ));
            }
            let attributes = action_id_attrs("top_up", id.as_str());
            Ok(HandleResponse { messages: Vec::new(), attributes })
        },
        None => {
            proof {
                assert(false);
            }
            Err(ContractError::NotFound)
        },
    }
}

/// Sends all escrowed assets of `id` to its holder and deletes the
/// record.  Only the holder may withdraw, and only at or after
/// `end_time`.
pub fn try_withdraw(registry: &mut Registry, env: &Env, sender: &String, id: String) -> (r: Result<
    HandleResponse,
    ContractError,
>)
    requires
        old(registry).wf(),
    ensures
        final(registry).wf(),
        withdraw_outcome(
            *old(registry),
            *final(registry),
            r,
            env.block_time,
            sender@,
            id@,
            env.contract_address@,
        ),
{
    match registry.load(&id) {
        None => {
            return Err(ContractError::NotFound);
        },
        Some(cb) => {
            if !(*sender == cb.holder) {
                return Err(ContractError::Unauthorized);
            }
            if env.block_time < cb.end_time {
                return Err(ContractError::NotExpired);
            }
        },
    }
    match registry.take(&id) {
        Some(clawback) => {
            proof {
                assert(registry.has(id@) == registry.as_map().dom().contains(id@));
                assert(!registry.as_map().dom().contains(id@));
            }
            let messages = send_tokens(&env.contract_address, &clawback.holder, &clawback.balance);
            let mut attributes: Vec<Attribute> = Vec::new();
            attributes.push(attr("action", "withdraw"));
            attributes.push(attr("id", id.as_str()));
            attributes.push(attr("to", clawback.holder.as_str()));
            Ok(HandleResponse { messages, attributes })
        },
        None => {
            proof {
                assert(false);
            }
            Err(ContractError::NotFound)
        },
    }
}

/// Extends the end time of `id` by one more clawback period.  Only the
/// holder or the backup may refresh, and only while the escrow is not
/// yet expired.
pub fn try_refresh(registry: &mut Registry, env: &Env, sender: &String, id: String) -> (r: Result<
    HandleResponse,
    ContractError,
>)
    requires
        old(registry).wf(),
        refresh_requires(*old(registry), id@),
    ensures
        final(registry).wf(),
        refresh_outcome(*old(registry), *final(registry), r, env.block_time, sender@, id@),
{
    match registry.load(&id) {
        None => {
            return Err(ContractError::NotFound);
        },
        Some(cb) => {
            if !(*sender == cb.holder) && !(*sender == cb.backup) {
                return Err(ContractError::Unauthorized);
            }
            if cb.is_expired(env.block_time) {
                return Err(ContractError::Expired);
            }
        },
    }
    match registry.take(&id) {
        Some(mut clawback) => {
            clawback.end_time = clawback.end_time + clawback.clawback_period;
            proof {
                assert(clawback@ =~~= refreshed(old(registry).get(id@)));
            }
            registry.save(&id, clawback);
            proof {
                assert(registry.as_map() =~= old(registry).as_map().insert(
                    id@,
                    refreshed(old(registry).get(id@)),
                ));
            }
            let attributes = action_id_attrs("refresh", id.as_str());
            Ok(HandleResponse { messages: Vec::new(), attributes })
        },
        None => {
            proof {
                assert(false);
            }
            Err(ContractError::NotFound)
        },
    }
}

/// Destroys the escrowed assets of `id` and deletes the record.  Only
/// the backup may burn, and only while the escrow is not yet expired.
pub fn try_burn(registry: &mut Registry, env: &Env, sender: &String, id: String) -> (r: Result<
    HandleResponse,
    ContractError,
>)
    requires
        old(registry).wf(),
    ensures
        final(registry).wf(),
        burn_outcome(*old(registry), *final(registry), r, env.block_time, sender@, id@),
{
    match registry.load(&id) {
        None => {
            return Err(ContractError::NotFound);
        },
        Some(cb) => {
            if !(*sender == cb.backup) {
                return Err(ContractError::Unauthorized);
            }
            if cb.is_expired(env.block_time) {
                return Err(ContractError::Expired);
            }
        },
    }
    registry.delete(&id);
    let attributes = action_id_attrs("burn", id.as_str());
    Ok(HandleResponse { messages: Vec::new(), attributes })
}

/// Moves `amount` from the escrow `from_id` to the escrow `to_id`,
/// within the same clawback ring.
pub fn try_transfer(
    registry: &mut Registry,
    env: &Env,
    sender: &String,
    from_id: String,
    to_id: String,
    amount: Balance,
) -> (r: Result<HandleResponse, ContractError>)
    requires
        old(registry).wf(),
        transfer_requires(*old(registry), from_id@, to_id@, amount),
    ensures
        final(registry).wf(),
        transfer_outcome(
            *old(registry),
            *final(registry),
            r,
            env.block_time,
            sender@,
            from_id@,
            to_id@,
            amount,
        ),
{
    let (from_backup, from_holder, from_end, from_period) = match registry.load(&from_id) {
        None => {
            return Err(ContractError::NotFound);
        },
        Some(cb) => (cb.backup.clone(), cb.holder.clone(), cb.end_time, cb.clawback_period),
    };
    let (to_backup, to_period) = match registry.load(&to_id) {
        None => {
            return Err(ContractError::NotFound);
        },
        Some(cb) => (cb.backup.clone(), cb.clawback_period),
    };
    let authorized = *sender == from_backup || (*sender == from_holder && env.block_time
        <= from_end);
    if !authorized {
        return Err(ContractError::Unauthorized);
    }
    if !(from_backup == to_backup) || from_period != to_period {
        return Err(ContractError::ContractMismatch);
    }
    let mut from_cb = match registry.take(&from_id) {
        Some(c) => c,
        None => {
            proof {
                assert(false);
            }
            return Err(ContractError::NotFound);
        },
    };
    let removed = from_cb.balance.remove_tokens(&amount);
    if removed.is_err() {
        registry.save(&from_id, from_cb);
        proof {
            assert(registry.as_map() =~= old(registry).as_map());
        }
        return Err(ContractError::InsufficientFunds);
    }
    let ghost fb = old(registry).get(from_id@).balance.remove_balance(&amount)->Some_0;
    let ghost f2 = with_balance(old(registry).get(from_id@), fb);
    let ghost tbase = if to_id@ == from_id@ {
        f2
    } else {
        old(registry).get(to_id@)
    };
    proof {
        assert(from_cb@ =~~= f2);
    }
    registry.save(&from_id, from_cb);
    proof {
        assert(registry.as_map() =~= old(registry).as_map().insert(from_id@, f2));
        assert(old(registry).as_map().dom().contains(to_id@)) by {
            assert(old(registry).has(to_id@));
        }
        assert(registry.as_map().dom().contains(to_id@));
        assert(registry.has(to_id@));
        assert(registry.as_map()[to_id@] == tbase);
        assert(registry.get(to_id@) == registry.as_map()[to_id@]);
    }
    let mut to_cb = match registry.take(&to_id) {
        Some(c) => c,
        None => {
            proof {
                assert(false);
            }
            return Err(ContractError::NotFound);
        },
    };
    proof {
        assert(to_cb@ == tbase);
    }
    to_cb.balance.add_tokens(amount);
    proof {
        assert(to_cb@ =~~= with_balance(tbase, tbase.balance.add_balance(amount)));
    }
    registry.save(&to_id, to_cb);
    proof {
        assert(registry.as_map() =~= old(registry).as_map().insert(from_id@, f2).insert(
            to_id@,
            with_balance(tbase, tbase.balance.add_balance(amount)),
        ));
    }
    let mut attributes: Vec<Attribute> = Vec::new();
    attributes.push(attr("action", "transfer"));
    attributes.push(attr("from_id", from_id.as_str()));
    attributes.push(attr("to_id", to_id.as_str()));
    Ok(HandleResponse { messages: Vec::new(), attributes })
}

/// Handles a deposit notification from a tokenized-asset contract: the
/// decoded payload selects a create or a top-up, funded with the
/// deposited amount, keyed by the calling asset contract.
pub fn try_receive(
    registry: &mut Registry,
    env: &Env,
    info: MessageInfo,
    wrapper: Cw20ReceiveMsg,
) -> (r: Result<HandleResponse, ContractError>)
    requires
        old(registry).wf(),
        receive_requires(*old(registry), env.block_time, info, wrapper),
    ensures
        final(registry).wf(),
        receive_outcome(*old(registry), *final(registry), r, env.block_time, info, wrapper),
{
    let balance = Balance::Cw20(Cw20Coin { address: info.sender, amount: wrapper.amount });
    match wrapper.msg {
        None => Err(ContractError::NoData),
        Some(ReceiveMsg::Create(m)) => try_create(registry, env, m, balance, &wrapper.sender),
        Some(ReceiveMsg::TopUp { id }) => try_top_up(registry, id, balance),
    }
}

/// Routes a request to its operation.
pub fn handle(registry: &mut Registry, env: &Env, info: MessageInfo, msg: HandleMsg) -> (r: Result<
    HandleResponse,
    ContractError,
>)
    requires
        old(registry).wf(),
        handle_requires(*old(registry), *env, info, msg),
    ensures
        final(registry).wf(),
        handle_outcome(*old(registry), *final(registry), r, *env, info, msg),
{
    match msg {
        HandleMsg::Create(m) => {
            let MessageInfo { sender, sent_funds } = info;
            try_create(registry, env, m, Balance::Native(sent_funds), &sender)
        },
        HandleMsg::TopUp { id } => try_top_up(registry, id, Balance::Native(info.sent_funds)),
        HandleMsg::Withdraw { id } => try_withdraw(registry, env, &info.sender, id),
        HandleMsg::Refresh { id } => try_refresh(registry, env, &info.sender, id),
        HandleMsg::Burn { id } => try_burn(registry, env, &info.sender, id),
        HandleMsg::ClawbackTransfer { from_id, to_id, amount } => try_transfer(
            registry,
            env,
            &info.sender,
            from_id,
            to_id,
            amount,
        ),
        HandleMsg::Receive(w) => try_receive(registry, env, info, w),
    }
}

// ------------------------------------------------------------------
// Exec: queries
// ------------------------------------------------------------------

/// Whether a details response reports exactly the stored escrow.
pub open spec fn details_match(d: DetailsResponse, id: Seq<char>, cb: ClawbackModel) -> bool {
    &&& d.id@ == id
    &&& d.backup@ == cb.backup
    &&& d.holder@ == cb.holder
    &&& d.end_time == cb.end_time
    &&& d.clawback_period == cb.clawback_period
    &&& coin_entries(d.native_balance@) == cb.balance.native
    &&& cw20_entries(d.cw20_balance@) == cb.balance.cw20
    &&& d.cw20_whitelist.deep_view() == cb.whitelist
}

/// The full details of the escrow named `id`.
pub fn query_details(registry: &Registry, id: String) -> (r: Result<
    DetailsResponse,
    ContractError,
>)
    requires
        registry.wf(),
    ensures
        match r {
            Ok(d) => registry.has(id@) && details_match(d, id@, registry.get(id@)),
            Err(e) => !registry.has(id@) && e == ContractError::NotFound,
        },
{
    match registry.load(&id) {
        None => Err(ContractError::NotFound),
        Some(cb) => {
            let details = DetailsResponse {
                backup: cb.backup.clone(),
                holder: cb.holder.clone(),
                end_time: cb.end_time,
                clawback_period: cb.clawback_period,
                native_balance: clone_coins(&cb.balance.native),
                cw20_balance: clone_cw20s(&cb.balance.cw20),
                cw20_whitelist: cb.human_whitelist(),
                id,
            };
            Ok(details)
        },
    }
}

/// The ids of all registered escrows, ascending.
pub fn query_list(registry: &Registry) -> (r: ListResponse)
    requires
        registry.wf(),
    ensures
        r.clawbacks.deep_view() == registry.ids(),
{
    ListResponse { clawbacks: all_clawback_ids(registry) }
}

/// Answers a read-only query.
pub fn query(registry: &Registry, msg: QueryMsg) -> (r: Result<QueryAnswer, ContractError>)
    requires
        registry.wf(),
    ensures
        match msg {
            QueryMsg::List => r is Ok && (r->Ok_0 matches QueryAnswer::List(l)
                && l.clawbacks.deep_view() == registry.ids()),
            QueryMsg::Details { id } => match r {
                Ok(a) => a matches QueryAnswer::Details(d) && registry.has(id@) && details_match(
                    d,
                    id@,
                    registry.get(id@),
                ),
                Err(e) => !registry.has(id@) && e == ContractError::NotFound,
            },
        },
{
    match msg {
        QueryMsg::List => Ok(QueryAnswer::List(query_list(registry))),
        QueryMsg::Details { id } => match query_details(registry, id) {
            Ok(d) => Ok(QueryAnswer::Details(d)),
            Err(e) => Err(e),
        },
    }
}

} // verus!
