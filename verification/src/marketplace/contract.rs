//! The calls of the marketplace.

use crate::address::{Identity, MessageInfo};
use crate::bytes::{compare_bytes, copy_bytes, ByteOrder};
use crate::cw20::msg::Cw20HandleMsg;
use crate::cw20::receiver::Cw20ReceiveMsg;
use crate::error::ContractError;
use crate::expiration::Env;
use crate::marketplace::msg::{BuyNft, HandleMsg, InitMsg, QueryMsg, ReceiveMsgWrapper, SellNft};
use crate::marketplace::package::{ContractInfoResponse, OfferingsResponse, QueryOfferingsResult};
use crate::marketplace::state::{
    increment_offerings, next_offering_id, offering_key, Marketplace, MarketplaceView, Offering,
    OfferingView,
};
use crate::ordered_map::StorageKey;
use crate::paging::{effective_limit, page, page_size};
use crate::response::{
    attr, attributes_view, Attribute, Cw721HandleMsg, Cw721ReceiveMsg, ExecuteMsg, HandleResponse,
    InitResponse, Instruction, Payload,
};
use crate::text::{canonical_text, decimal, decimal_text, hex_upper, lemma_decimal_value};
use vstd::prelude::*;

verus! {

/// Different identifiers are stored under different keys.
pub proof fn lemma_offering_key_injective(a: Seq<char>, b: Seq<char>)
    ensures
        offering_key(a) == offering_key(b) <==> a == b,
{
    vstd::utf8::encode_utf8_decode_utf8(a);
    vstd::utf8::encode_utf8_decode_utf8(b);
}

/// A price as an event shows it: the amount in decimal, a blank, and the
/// ledger.
pub open spec fn price_view(amount: u128, ledger: Seq<char>) -> Seq<char> {
    decimal(amount as nat) + seq![' '] + ledger
}

fn price_text(amount: u128, ledger: &str) -> (s: String)
    ensures
        s@ == price_view(amount, ledger@),
{
    proof {
        reveal_strlit(" ");
    }
    let mut s = decimal_text(amount);
    s.append(" ");
    s.append(ledger);
    assert(s@ =~= price_view(amount, ledger@)) by {
        assert(" "@ =~= seq![' ']);
    }
    s
}

/// Sets the marketplace up: it has the name given and no offerings yet.
pub fn init(msg: InitMsg) -> (r: (Marketplace, InitResponse))
    ensures
        r.0.wf(),
        r.0@ == (MarketplaceView { name: msg.name@, offerings: Map::empty(), offerings_count: 0 }),
        r.0.offering_ids() == Seq::<Seq<u8>>::empty(),
        r.1.messages@.len() == 0,
        r.1.attributes@.len() == 0,
{
    (Marketplace::new(ContractInfoResponse { name: msg.name }), InitResponse::new())
}

/// What a payment does: it must come with instructions that name an open
/// offering, and must not be below the listed price; then the offering is
/// closed.
pub open spec fn buy_result(
    state: MarketplaceView,
    amount: u128,
    payload: Payload<BuyNft>,
) -> Result<MarketplaceView, ContractError> {
    match payload {
        Payload::Absent => Err(ContractError::NoData),
        Payload::Unreadable => Err(ContractError::InvalidPayload),
        Payload::Given(buy) => {
            let key = offering_key(buy.offering_id@);
            if !state.offerings.contains_key(key) {
                Err(ContractError::NotFound)
            } else if amount < state.offerings[key].price_amount {
                Err(ContractError::InsufficientFunds)
            } else {
                Ok(MarketplaceView { offerings: state.offerings.remove(key), ..state })
            }
        },
    }
}

/// What the sale of `offering` hands back: the instruction to pay what the
/// buyer sent to the seller, through the ledger that the payment came
/// through, then the instruction to hand the token to the buyer, then the
/// event.
pub open spec fn is_sale(
    response: HandleResponse,
    offering: OfferingView,
    ledger: Seq<char>,
    buyer: Seq<char>,
    amount: u128,
) -> bool {
    &&& response.messages@.len() == 2
    &&& response.messages@[0].is_payment(ledger, offering.seller, amount)
    &&& response.messages@[1].is_delivery(offering.contract_addr, buyer, offering.token_id)
    &&& response.data is None
    &&& attributes_view(response.attributes@) == seq![
        ("action"@, "buy_nft"@),
        ("buyer"@, buyer),
        ("seller"@, hex_upper(offering.seller)),
        ("paid_price"@, price_view(amount, ledger)),
        ("token_id"@, offering.token_id),
        ("contract_addr"@, hex_upper(offering.contract_addr)),
    ]
}

/// Takes a payment that a ledger gives notice of: the sender of the message is
/// the ledger, the sender named in the notice is the buyer.
pub fn try_receive(
    state: &mut Marketplace,
    info: MessageInfo,
    rcv_msg: Cw20ReceiveMsg<BuyNft>,
) -> (r: Result<HandleResponse, ContractError>)
    requires
        old(state).wf(),
    ensures
        final(state).wf(),
        match buy_result(old(state)@, rcv_msg.amount, rcv_msg.msg) {
            Ok(next) => final(state)@ == next && r is Ok && is_sale(
                r->Ok_0,
                old(state)@.offerings[offering_key(rcv_msg.msg->Given_0.offering_id@)],
                info.sender.human@,
                rcv_msg.sender@,
                rcv_msg.amount,
            ),
            Err(e) => r == Err::<HandleResponse, ContractError>(e) && *final(state) == *old(state),
        },
{
    let msg = match rcv_msg.msg {
        Payload::Given(msg) => msg,
        Payload::Absent => {
            return Err(ContractError::NoData);
        },
        Payload::Unreadable => {
            return Err(ContractError::InvalidPayload);
        },
    };
    let off = match state.load(msg.offering_id.as_str().as_bytes()) {
        Some(off) => off.duplicate(),
        None => {
            return Err(ContractError::NotFound);
        },
    };
    if rcv_msg.amount < off.list_price.amount {
        return Err(ContractError::InsufficientFunds);
    }
    let pay = Instruction {
        contract_addr: Identity::Human(info.sender.human.clone()),
        msg: ExecuteMsg::Cw20(
            Cw20HandleMsg::Transfer {
                recipient: Identity::Canonical(copy_bytes(off.seller.as_slice())),
                amount: rcv_msg.amount,
            },
        ),
    };
    let deliver = Instruction {
        contract_addr: Identity::Canonical(copy_bytes(off.contract_addr.as_slice())),
        msg: ExecuteMsg::Cw721(
            Cw721HandleMsg::TransferNft {
                recipient: Identity::Human(rcv_msg.sender.clone()),
                token_id: off.token_id.clone(),
            },
        ),
    };
    let mut messages: Vec<Instruction> = Vec::new();
    messages.push(pay);
    messages.push(deliver);
    state.remove(msg.offering_id.as_str().as_bytes());
    let price = price_text(rcv_msg.amount, info.sender.human.as_str());
    let seller = canonical_text(&off.seller);
    let registry = canonical_text(&off.contract_addr);
    let a0 = attr("action", "buy_nft");
    let a1 = attr("buyer", rcv_msg.sender.as_str());
    let a2 = attr("seller", seller.as_str());
    let a3 = attr("paid_price", price.as_str());
    let a4 = attr("token_id", off.token_id.as_str());
    let a5 = attr("contract_addr", registry.as_str());
    let ghost views = seq![a0@, a1@, a2@, a3@, a4@, a5@];
    let mut attributes: Vec<Attribute> = Vec::new();
    attributes.push(a0);
    attributes.push(a1);
    attributes.push(a2);
    attributes.push(a3);
    attributes.push(a4);
    attributes.push(a5);
    assert(attributes_view(attributes@) =~= views);
    Ok(HandleResponse { messages, attributes, data: None })
}

/// The offering that listing a token makes: the token that was sent, from the
/// registry that gave notice of it, for the one who sent it, at the price
/// named in the instructions.
pub open spec fn listed(
    registry: Seq<u8>,
    seller: Seq<u8>,
    token_id: Seq<char>,
    sell: SellNft,
) -> OfferingView {
    OfferingView {
        token_id,
        contract_addr: registry,
        seller,
        price_address: sell.list_price.address@,
        price_amount: sell.list_price.amount,
    }
}

/// What the listing of a token hands back: no instruction, since the token is
/// in the marketplace's hands already, and the event.
pub open spec fn is_listing(
    response: HandleResponse,
    registry: Seq<char>,
    seller: Seq<u8>,
    token_id: Seq<char>,
    sell: SellNft,
    offering_id: Seq<char>,
) -> bool {
    &&& response.messages@.len() == 0
    &&& response.data is None
    &&& attributes_view(response.attributes@) == seq![
        ("action"@, "sell_nft"@),
        ("original_contract"@, registry),
        ("seller"@, hex_upper(seller)),
        ("list_price"@, price_view(sell.list_price.amount, sell.list_price.address@)),
        ("token_id"@, token_id),
        ("offering_id"@, offering_id),
    ]
}

/// What the arrival of a token does: it must come with instructions that name
/// a price; then the token is listed under the next identifier.
pub open spec fn sell_result(
    state: MarketplaceView,
    registry: Seq<u8>,
    seller: Seq<u8>,
    token_id: Seq<char>,
    payload: Payload<SellNft>,
) -> Result<MarketplaceView, ContractError> {
    match payload {
        Payload::Absent => Err(ContractError::NoData),
        Payload::Unreadable => Err(ContractError::InvalidPayload),
        Payload::Given(sell) => Ok(
            MarketplaceView {
                offerings: state.offerings.insert(
                    offering_key(next_offering_id(state.offerings_count)),
                    listed(registry, seller, token_id, sell),
                ),
                offerings_count: (state.offerings_count + 1) as u64,
                ..state
            },
        ),
    }
}

/// Takes a token that a registry gives notice of: the sender of the message is
/// the registry, the sender named in the notice is the seller. The token is in
/// the marketplace's hands by then; listing it moves nothing.
pub fn try_receive_nft(
    state: &mut Marketplace,
    info: MessageInfo,
    rcv_msg: Cw721ReceiveMsg<SellNft>,
) -> (r: Result<HandleResponse, ContractError>)
    requires
        old(state).wf(),
        old(state)@.offerings_count < u64::MAX,
    ensures
        final(state).wf(),
        match sell_result(
            old(state)@,
            info.sender.canonical@,
            rcv_msg.sender.canonical@,
            rcv_msg.token_id@,
            rcv_msg.msg,
        ) {
            Ok(next) => {
                &&& final(state)@ == next
                &&& !old(state)@.offerings.contains_key(
                    offering_key(next_offering_id(old(state)@.offerings_count)),
                )
                &&& r is Ok
                &&& is_listing(
                    r->Ok_0,
                    info.sender.human@,
                    rcv_msg.sender.canonical@,
                    rcv_msg.token_id@,
                    rcv_msg.msg->Given_0,
                    next_offering_id(old(state)@.offerings_count),
                )
            },
            Err(e) => r == Err::<HandleResponse, ContractError>(e) && *final(state) == *old(state),
        },
{
    let msg = match rcv_msg.msg {
        Payload::Given(msg) => msg,
        Payload::Absent => {
            return Err(ContractError::NoData);
        },
        Payload::Unreadable => {
            return Err(ContractError::InvalidPayload);
        },
    };
    proof {
        state.lemma_next_id_is_fresh();
        lemma_decimal_value((state@.offerings_count + 1) as nat);
    }
    let id = decimal_text(increment_offerings(state) as u128);
    let price = price_text(msg.list_price.amount, msg.list_price.address.as_str());
    let seller = canonical_text(&rcv_msg.sender.canonical);
    let a0 = attr("action", "sell_nft");
    let a1 = attr("original_contract", info.sender.human.as_str());
    let a2 = attr("seller", seller.as_str());
    let a3 = attr("list_price", price.as_str());
    let a4 = attr("token_id", rcv_msg.token_id.as_str());
    let a5 = attr("offering_id", id.as_str());
    let ghost views = seq![a0@, a1@, a2@, a3@, a4@, a5@];
    let mut attributes: Vec<Attribute> = Vec::new();
    attributes.push(a0);
    attributes.push(a1);
    attributes.push(a2);
    attributes.push(a3);
    attributes.push(a4);
    attributes.push(a5);
    assert(attributes_view(attributes@) =~= views);
    let off = Offering {
        contract_addr: info.sender.canonical,
        token_id: rcv_msg.token_id,
        seller: rcv_msg.sender.canonical,
        list_price: msg.list_price,
    };
    state.save(id, off);
    Ok(HandleResponse { messages: Vec::new(), attributes, data: None })
}

/// What the withdrawal of `offering` hands back: the instruction to hand the
/// token back to the seller, and the event.
pub open spec fn is_withdrawal(
    response: HandleResponse,
    offering: OfferingView,
    seller: Seq<char>,
    offering_id: Seq<char>,
) -> bool {
    &&& response.messages@.len() == 1
    &&& response.messages@[0].is_return(offering.contract_addr, offering.seller, offering.token_id)
    &&& response.data is None
    &&& attributes_view(response.attributes@) == seq![
        ("action"@, "withdraw_nft"@),
        ("seller"@, seller),
        ("offering_id"@, offering_id),
    ]
}

/// What a withdrawal does: the offering must be open, and only its seller may
/// withdraw it; then the offering is closed.
pub open spec fn withdraw_result(state: MarketplaceView, sender: Seq<u8>, key: Seq<u8>) -> Result<
    MarketplaceView,
    ContractError,
> {
    if !state.offerings.contains_key(key) {
        Err(ContractError::NotFound)
    } else if state.offerings[key].seller != sender {
        Err(ContractError::Unauthorized)
    } else {
        Ok(MarketplaceView { offerings: state.offerings.remove(key), ..state })
    }
}

/// Hands the token of an offering back to its seller.
pub fn try_withdraw(state: &mut Marketplace, info: MessageInfo, offering_id: String) -> (r: Result<
    HandleResponse,
    ContractError,
>)
    requires
        old(state).wf(),
    ensures
        final(state).wf(),
        match withdraw_result(old(state)@, info.sender.canonical@, offering_key(offering_id@)) {
            Ok(next) => {
                &&& final(state)@ == next
                &&& r is Ok
                &&& is_withdrawal(
                    r->Ok_0,
                    old(state)@.offerings[offering_key(offering_id@)],
                    info.sender.human@,
                    offering_id@,
                )
            },
            Err(e) => r == Err::<HandleResponse, ContractError>(e) && *final(state) == *old(state),
        },
{
    let off = match state.load(offering_id.as_str().as_bytes()) {
        Some(off) => off.duplicate(),
        None => {
            return Err(ContractError::NotFound);
        },
    };
    if compare_bytes(off.seller.as_slice(), info.sender.canonical.as_slice()) != ByteOrder::Same {
        return Err(ContractError::Unauthorized);
    }
    let give_back = Instruction {
        contract_addr: Identity::Canonical(off.contract_addr),
        msg: ExecuteMsg::Cw721(
            Cw721HandleMsg::TransferNft {
                recipient: Identity::Canonical(off.seller),
                token_id: off.token_id,
            },
        ),
    };
    let mut messages: Vec<Instruction> = Vec::new();
    messages.push(give_back);
    state.remove(offering_id.as_str().as_bytes());
    let a0 = attr("action", "withdraw_nft");
    let a1 = attr("seller", info.sender.human.as_str());
    let a2 = attr("offering_id", offering_id.as_str());
    let ghost views = seq![a0@, a1@, a2@];
    let mut attributes: Vec<Attribute> = Vec::new();
    attributes.push(a0);
    attributes.push(a1);
    attributes.push(a2);
    assert(attributes_view(attributes@) =~= views);
    Ok(HandleResponse { messages, attributes, data: None })
}

/// What the call needs of the numbers in the state: a listing, that the count
/// of offerings can go up.
pub open spec fn numbers_fit(state: MarketplaceView, msg: HandleMsg) -> bool {
    msg matches HandleMsg::Receive(ReceiveMsgWrapper::Cw721Rcv(_)) ==> state.offerings_count
        < u64::MAX
}

/// What a call does to the state, by the kind of the call.
pub open spec fn handle_result(state: MarketplaceView, info: MessageInfo, msg: HandleMsg) -> Result<
    MarketplaceView,
    ContractError,
> {
    match msg {
        HandleMsg::WithdrawNft { offering_id } => withdraw_result(
            state,
            info.sender.canonical@,
            offering_key(offering_id@),
        ),
        HandleMsg::Receive(ReceiveMsgWrapper::Cw20Rcv(m)) => buy_result(state, m.amount, m.msg),
        HandleMsg::Receive(ReceiveMsgWrapper::Cw721Rcv(m)) => sell_result(
            state,
            info.sender.canonical@,
            m.sender.canonical@,
            m.token_id@,
            m.msg,
        ),
    }
}

/// Handles a call that changes the state. A call that is refused leaves the
/// state as it was.
pub fn handle(state: &mut Marketplace, _env: Env, info: MessageInfo, msg: HandleMsg) -> (r: Result<
    HandleResponse,
    ContractError,
>)
    requires
        old(state).wf(),
        numbers_fit(old(state)@, msg),
    ensures
        final(state).wf(),
        match handle_result(old(state)@, info, msg) {
            Ok(next) => {
                &&& final(state)@ == next
                &&& r is Ok
                &&& match msg {
                    HandleMsg::WithdrawNft { offering_id } => is_withdrawal(
                        r->Ok_0,
                        old(state)@.offerings[offering_key(offering_id@)],
                        info.sender.human@,
                        offering_id@,
                    ),
                    HandleMsg::Receive(ReceiveMsgWrapper::Cw20Rcv(m)) => is_sale(
                        r->Ok_0,
                        old(state)@.offerings[offering_key(m.msg->Given_0.offering_id@)],
                        info.sender.human@,
                        m.sender@,
                        m.amount,
                    ),
                    HandleMsg::Receive(ReceiveMsgWrapper::Cw721Rcv(m)) => is_listing(
                        r->Ok_0,
                        info.sender.human@,
                        m.sender.canonical@,
                        m.token_id@,
                        m.msg->Given_0,
                        next_offering_id(old(state)@.offerings_count),
                    ),
                }
            },
            Err(e) => r == Err::<HandleResponse, ContractError>(e) && *final(state) == *old(state),
        },
{
    match msg {
        HandleMsg::WithdrawNft { offering_id } => try_withdraw(state, info, offering_id),
        HandleMsg::Receive(ReceiveMsgWrapper::Cw20Rcv(msg)) => try_receive(state, info, msg),
        HandleMsg::Receive(ReceiveMsgWrapper::Cw721Rcv(msg)) => try_receive_nft(state, info, msg),
    }
}

/// What the listing shows of the open offering `offering` with the identifier
/// that has the key bytes `key`.
pub open spec fn shows_offering(
    r: QueryOfferingsResult,
    key: Seq<u8>,
    offering: OfferingView,
) -> bool {
    &&& offering_key(r.id@) == key
    &&& r.token_id@ == offering.token_id
    &&& r.list_price.address@ == offering.price_address
    &&& r.list_price.amount == offering.price_amount
    &&& r.contract_addr@ == offering.contract_addr
    &&& r.seller@ == offering.seller
}

/// The entry at place `i` of a listing shows the open offering at place `i` of
/// the state's listing.
pub open spec fn shows_at(state: Marketplace, listing: Seq<QueryOfferingsResult>, i: int) -> bool {
    &&& state@.offerings.contains_key(state.offering_ids()[i])
    &&& shows_offering(
        listing[i],
        state.offering_ids()[i],
        state@.offerings[state.offering_ids()[i]],
    )
}

/// The listing shows all open offerings, in ascending order of their
/// identifiers.
pub open spec fn lists_all(state: Marketplace, listing: Seq<QueryOfferingsResult>) -> bool {
    &&& listing.len() == state.offering_ids().len()
    &&& forall|i: int| 0 <= i < listing.len() ==> #[trigger] shows_at(state, listing, i)
}

/// All open offerings, in ascending order of their identifiers.
pub fn query_offerings(state: &Marketplace) -> (r: OfferingsResponse)
    requires
        state.wf(),
    ensures
        lists_all(*state, r.offerings@),
{
    let mut offerings: Vec<QueryOfferingsResult> = Vec::new();
    let mut i: usize = 0;
    while i < state.len()
        invariant
            state.wf(),
            i <= state.offering_ids().len(),
            offerings@.len() == i,
            forall|j: int| 0 <= j < i ==> #[trigger] shows_at(*state, offerings@, j),
        decreases state.offering_ids().len() - i,
    {
        let ghost before = offerings@;
        offerings.push(parse_offering(state.id_at(i), state.offering_at(i)));
        proof {
            assert forall|j: int| 0 <= j < i + 1 implies #[trigger] shows_at(
                *state,
                offerings@,
                j,
            ) by {
                if j < i {
                    assert(shows_at(*state, before, j));
                    assert(offerings@[j] == before[j]);
                }
            }
        }
        i += 1;
    }
    OfferingsResponse { offerings }
}

/// The cursor of a listing of offerings: the key of the identifier after which
/// it is to continue.
pub open spec fn offering_cursor(start_after: Option<String>) -> Option<Seq<u8>> {
    match start_after {
        Some(id) => Some(offering_key(id@)),
        None => None,
    }
}

/// The listing is one page of the open offerings: it shows, in ascending
/// order of their identifiers, the first `size` of those whose identifier
/// comes after the cursor.
pub open spec fn lists_page(
    state: Marketplace,
    listing: Seq<QueryOfferingsResult>,
    start_after: Option<Seq<u8>>,
    size: nat,
) -> bool {
    let ids = page(state.offering_ids(), start_after, size);
    &&& listing.len() == ids.len()
    &&& forall|i: int|
        0 <= i < listing.len() ==> state@.offerings.contains_key(#[trigger] ids[i])
            && shows_offering(listing[i], ids[i], state@.offerings[ids[i]])
}

/// One page of the open offerings, in ascending order of their identifiers:
/// it starts after the cursor and holds as many offerings as the limit
/// allows, 10 where none is given and never more than 30.
pub fn query_offerings_page(
    state: &Marketplace,
    start_after: Option<String>,
    limit: Option<u32>,
) -> (r: OfferingsResponse)
    requires
        state.wf(),
    ensures
        lists_page(*state, r.offerings@, offering_cursor(start_after), page_size(limit)),
{
    let size = effective_limit(limit);
    let start: Option<&[u8]> = match &start_after {
        Some(id) => Some(id.as_str().as_bytes()),
        None => None,
    };
    let p = state.first_after(start);
    let ghost rest = state.offering_ids().skip(p as int);
    let mut offerings: Vec<QueryOfferingsResult> = Vec::new();
    let mut i: usize = p;
    while i < state.len() && offerings.len() < size
        invariant
            state.wf(),
            p <= i <= state.offering_ids().len(),
            rest == state.offering_ids().skip(p as int),
            offerings@.len() == i - p,
            offerings@.len() <= size,
            forall|j: int|
                0 <= j < i - p ==> state@.offerings.contains_key(#[trigger] rest[j])
                    && shows_offering(offerings@[j], rest[j], state@.offerings[rest[j]]),
        decreases state.offering_ids().len() - i,
    {
        let ghost before = offerings@;
        offerings.push(parse_offering(state.id_at(i), state.offering_at(i)));
        proof {
            assert(rest[i - p] == state.offering_ids()[i as int]);
            assert forall|j: int| 0 <= j < i + 1 - p implies state@.offerings.contains_key(
                #[trigger] rest[j],
            ) && shows_offering(offerings@[j], rest[j], state@.offerings[rest[j]]) by {
                if j < i - p {
                    assert(offerings@[j] == before[j]);
                }
            }
        }
        i += 1;
    }
    proof {
        let ids = page(state.offering_ids(), offering_cursor(start_after), size as nat);
        assert(ids =~= rest.take(i - p));
        assert forall|j: int| 0 <= j < offerings@.len() implies state@.offerings.contains_key(
            #[trigger] ids[j],
        ) && shows_offering(offerings@[j], ids[j], state@.offerings[ids[j]]) by {
            assert(ids[j] == rest[j]);
        }
    }
    OfferingsResponse { offerings }
}

/// One entry of the listing of open offerings.
pub fn parse_offering(id: &String, offering: &Offering) -> (r: QueryOfferingsResult)
    ensures
        shows_offering(r, id.key_bytes(), offering@),
{
    QueryOfferingsResult {
        id: id.clone(),
        token_id: offering.token_id.clone(),
        list_price: offering.list_price.duplicate(),
        contract_addr: copy_bytes(offering.contract_addr.as_slice()),
        seller: copy_bytes(offering.seller.as_slice()),
    }
}

/// Handles a call that reads the state.
pub fn query(state: &Marketplace, _env: Env, msg: QueryMsg) -> (r: OfferingsResponse)
    requires
        state.wf(),
    ensures
        lists_all(*state, r.offerings@),
{
    match msg {
        QueryMsg::GetOfferings => query_offerings(state),
    }
}

} // verus!
