//! The calls of the registry.

use crate::address::{Address, MessageInfo};
use crate::bytes::{compare_bytes, copy_bytes, ByteOrder};
use crate::error::ContractError;
use crate::expiration::{expiry_or_never, BlockInfo, Env, Expiration};
use crate::ordered_map::{cursor, entries_after, StorageKey};
use crate::paging::{effective_limit, first_n, page, page_size};
use crate::registry::msg::{HandleMsg, InitMsg, MintMsg, QueryMsg};
use crate::registry::package::{
    AllNftInfoResponse, ApprovedForAllResponse, MinterResponse, NftInfoResponse, NumTokensResponse,
    OwnerOfResponse, QueryResponse, TokensResponse,
};
use crate::registry::state::{
    approvals_view, distinct_spenders, duplicate_text, id_keys, increment_tokens, num_tokens,
    text_view, tokens, Approval, ApprovalView, ContractInfoResponse, Registry, RegistryView,
    TokenInfo, TokenInfoView,
};
use crate::response::{
    attr, attributes_view, Attribute, Cw721ReceiveMsg, HandleResponse, InitResponse, Instruction,
    Payload,
};
use vstd::prelude::*;

verus! {

/// The key bytes under which the token with the identifier `id` is stored.
pub open spec fn token_key(id: Seq<char>) -> Seq<u8> {
    vstd::utf8::encode_utf8(id)
}

/// Different identifiers are stored under different keys.
pub proof fn lemma_token_key_injective(a: Seq<char>, b: Seq<char>)
    ensures
        token_key(a) == token_key(b) <==> a == b,
{
    vstd::utf8::encode_utf8_decode_utf8(a);
    vstd::utf8::encode_utf8_decode_utf8(b);
}

/// The grant that `owner` gave to `operator` exists and has not lapsed at
/// `block`.
pub open spec fn is_live_operator(
    state: RegistryView,
    block: BlockInfo,
    owner: Seq<u8>,
    operator: Seq<u8>,
) -> bool {
    state.operators.contains_key((owner, operator)) && !state.operators[(
        owner,
        operator,
    )].expired_at(block)
}

/// One of the approvals is for `spender` and has not lapsed at `block`.
pub open spec fn has_live_approval(
    approvals: Seq<ApprovalView>,
    block: BlockInfo,
    spender: Seq<u8>,
) -> bool {
    exists|i: int|
        0 <= i < approvals.len() && (#[trigger] approvals[i]).spender == spender
            && !approvals[i].expires.expired_at(block)
}

/// Who may give and take back approvals for a token: its owner, and an
/// operator of its owner whose grant has not lapsed.
pub open spec fn can_approve(
    state: RegistryView,
    block: BlockInfo,
    sender: Seq<u8>,
    token: TokenInfoView,
) -> bool {
    token.owner == sender || is_live_operator(state, block, token.owner, sender)
}

/// Who may transfer or send a token: its owner, the holder of an approval for
/// it that has not lapsed, and an operator of its owner whose grant has not
/// lapsed.
pub open spec fn can_send(
    state: RegistryView,
    block: BlockInfo,
    sender: Seq<u8>,
    token: TokenInfoView,
) -> bool {
    token.owner == sender || has_live_approval(token.approvals, block, sender) || is_live_operator(
        state,
        block,
        token.owner,
        sender,
    )
}

fn same_bytes(a: &[u8], b: &[u8]) -> (same: bool)
    ensures
        same == (a@ == b@),
{
    compare_bytes(a, b) == ByteOrder::Same
}

fn check_operator(state: &Registry, env: &Env, owner: &[u8], sender: &[u8]) -> (r: Result<
    (),
    ContractError,
>)
    requires
        state.wf(),
    ensures
        r == (if is_live_operator(state@, env.block, owner@, sender@) {
            Ok::<(), ContractError>(())
        } else {
            Err(ContractError::Unauthorized)
        }),
{
    match state.operator(owner, sender) {
        Some(expires) => {
            if expires.is_expired(&env.block) {
                Err(ContractError::Unauthorized)
            } else {
                Ok(())
            }
        },
        None => Err(ContractError::Unauthorized),
    }
}

/// Passes if and only if the sender may give and take back approvals for the
/// token.
pub fn check_can_approve(state: &Registry, env: &Env, info: &MessageInfo, token: &TokenInfo) -> (r:
    Result<(), ContractError>)
    requires
        state.wf(),
    ensures
        r == (if can_approve(state@, env.block, info.sender.canonical@, token@) {
            Ok::<(), ContractError>(())
        } else {
            Err(ContractError::Unauthorized)
        }),
{
    if same_bytes(token.owner.as_slice(), info.sender.canonical.as_slice()) {
        return Ok(());
    }
    check_operator(state, env, token.owner.as_slice(), info.sender.canonical.as_slice())
}

fn holds_live_approval(approvals: &Vec<Approval>, block: &BlockInfo, spender: &[u8]) -> (found:
    bool)
    ensures
        found == has_live_approval(approvals_view(approvals@), *block, spender@),
{
    let mut i: usize = 0;
    while i < approvals.len()
        invariant
            i <= approvals@.len(),
            forall|j: int|
                0 <= j < i ==> !((#[trigger] approvals_view(approvals@)[j]).spender == spender@
                    && !approvals_view(approvals@)[j].expires.expired_at(*block)),
        decreases approvals@.len() - i,
    {
        if same_bytes(approvals[i].spender.as_slice(), spender) && !approvals[i].expires.is_expired(
            block,
        ) {
            assert(approvals_view(approvals@)[i as int].spender == spender@);
            return true;
        }
        i += 1;
    }
    false
}

/// Passes if and only if the sender may transfer or send the token.
pub fn check_can_send(state: &Registry, env: &Env, info: &MessageInfo, token: &TokenInfo) -> (r:
    Result<(), ContractError>)
    requires
        state.wf(),
    ensures
        r == (if can_send(state@, env.block, info.sender.canonical@, token@) {
            Ok::<(), ContractError>(())
        } else {
            Err(ContractError::Unauthorized)
        }),
{
    if same_bytes(token.owner.as_slice(), info.sender.canonical.as_slice()) {
        return Ok(());
    }
    if holds_live_approval(&token.approvals, &env.block, info.sender.canonical.as_slice()) {
        return Ok(());
    }
    check_operator(state, env, token.owner.as_slice(), info.sender.canonical.as_slice())
}

/// A response that holds an event and no instruction.
pub open spec fn is_event(
    response: HandleResponse,
    attributes: Seq<(Seq<char>, Seq<char>)>,
) -> bool {
    &&& response.messages@.len() == 0
    &&& response.data is None
    &&& attributes_view(response.attributes@) == attributes
}

fn event(attributes: Vec<Attribute>) -> (response: HandleResponse)
    ensures
        is_event(response, attributes_view(attributes@)),
{
    HandleResponse { messages: Vec::new(), attributes, data: None }
}

fn attributes3(a: Attribute, b: Attribute, c: Attribute) -> (v: Vec<Attribute>)
    ensures
        attributes_view(v@) == seq![a@, b@, c@],
{
    let mut v: Vec<Attribute> = Vec::new();
    v.push(a);
    v.push(b);
    v.push(c);
    assert(attributes_view(v@) =~= seq![a@, b@, c@]);
    v
}

fn attributes4(a: Attribute, b: Attribute, c: Attribute, d: Attribute) -> (v: Vec<Attribute>)
    ensures
        attributes_view(v@) == seq![a@, b@, c@, d@],
{
    let mut v: Vec<Attribute> = Vec::new();
    v.push(a);
    v.push(b);
    v.push(c);
    v.push(d);
    assert(attributes_view(v@) =~= seq![a@, b@, c@, d@]);
    v
}

/// Sets the registry up: it has the name, the symbol and the minter given, and
/// no tokens and no grants yet.
pub fn init(msg: InitMsg) -> (r: (Registry, InitResponse))
    ensures
        r.0.wf(),
        r.0@ == (RegistryView {
            name: msg.name@,
            symbol: msg.symbol@,
            minter: msg.minter.canonical@,
            token_count: 0,
            tokens: Map::empty(),
            operators: Map::empty(),
        }),
        r.0.token_ids() == Seq::<Seq<u8>>::empty(),
        r.1.messages@.len() == 0,
        r.1.attributes@.len() == 0,
{
    let info = ContractInfoResponse { name: msg.name, symbol: msg.symbol };
    (Registry::new(info, msg.minter.canonical), InitResponse::new())
}

/// The record with which a token is minted: it belongs to the owner named and
/// has no approvals; a description that is not given is empty.
pub open spec fn minted(msg: MintMsg) -> TokenInfoView {
    TokenInfoView {
        owner: msg.owner.canonical@,
        approvals: Seq::empty(),
        name: msg.name@,
        level: msg.level,
        description: match msg.description {
            Some(d) => d@,
            None => Seq::empty(),
        },
        image: text_view(msg.image),
    }
}

/// What minting does: only the minter may, and only under an identifier that
/// no token has yet; then the record is stored and the count goes up by one.
pub open spec fn mint_result(
    state: RegistryView,
    sender: Seq<u8>,
    key: Seq<u8>,
    token: TokenInfoView,
) -> Result<RegistryView, ContractError> {
    if sender != state.minter {
        Err(ContractError::Unauthorized)
    } else if state.tokens.contains_key(key) {
        Err(ContractError::Claimed)
    } else {
        Ok(
            RegistryView {
                tokens: state.tokens.insert(key, token),
                token_count: (state.token_count + 1) as u64,
                ..state
            },
        )
    }
}

/// Mints a token.
pub fn handle_mint(state: &mut Registry, _env: Env, info: MessageInfo, msg: MintMsg) -> (r: Result<
    HandleResponse,
    ContractError,
>)
    requires
        old(state).wf(),
        old(state)@.token_count < u64::MAX,
        msg.owner.canonical@.len() > 0,
    ensures
        final(state).wf(),
        match mint_result(
            old(state)@,
            info.sender.canonical@,
            token_key(msg.token_id@),
            minted(msg),
        ) {
            Ok(next) => final(state)@ == next && r is Ok && is_event(
                r->Ok_0,
                seq![
                    ("action"@, "mint"@),
                    ("minter"@, info.sender.human@),
                    ("token_id"@, msg.token_id@),
                ],
            ),
            Err(e) => r == Err::<HandleResponse, ContractError>(e) && *final(state) == *old(state),
        },
{
    if !same_bytes(info.sender.canonical.as_slice(), state.minter().as_slice()) {
        return Err(ContractError::Unauthorized);
    }
    if tokens(state).load(msg.token_id.as_str().as_bytes()).is_some() {
        return Err(ContractError::Claimed);
    }
    let attributes = attributes3(
        attr("action", "mint"),
        attr("minter", info.sender.human.as_str()),
        attr("token_id", msg.token_id.as_str()),
    );
    let token = TokenInfo {
        owner: msg.owner.canonical,
        approvals: Vec::new(),
        name: msg.name,
        level: msg.level,
        description: match msg.description {
            Some(d) => d,
            None => String::new(),
        },
        image: msg.image,
    };
    assert(token@.approvals =~= Seq::<ApprovalView>::empty());
    state.save_token(msg.token_id, token);
    increment_tokens(state);
    Ok(event(attributes))
}

/// The record of a token after a transfer: it belongs to the recipient and has
/// no approvals; the rest is as it was.
pub open spec fn transferred(token: TokenInfoView, recipient: Seq<u8>) -> TokenInfoView {
    TokenInfoView { owner: recipient, approvals: Seq::empty(), ..token }
}

/// What a transfer does: the token must exist and the sender must have the
/// right to send it; then the token goes to the recipient and loses its
/// approvals. The operator grants stay as they are.
pub open spec fn transfer_result(
    state: RegistryView,
    block: BlockInfo,
    sender: Seq<u8>,
    recipient: Seq<u8>,
    key: Seq<u8>,
) -> Result<RegistryView, ContractError> {
    if !state.tokens.contains_key(key) {
        Err(ContractError::NotFound)
    } else if !can_send(state, block, sender, state.tokens[key]) {
        Err(ContractError::Unauthorized)
    } else {
        Ok(
            RegistryView {
                tokens: state.tokens.insert(key, transferred(state.tokens[key], recipient)),
                ..state
            },
        )
    }
}

/// Moves the token to the recipient and hands back its new record.
pub fn _transfer_nft(
    state: &mut Registry,
    env: &Env,
    info: &MessageInfo,
    recipient: &Address,
    token_id: &str,
) -> (r: Result<TokenInfo, ContractError>)
    requires
        old(state).wf(),
        recipient.canonical@.len() > 0,
    ensures
        final(state).wf(),
        match transfer_result(
            old(state)@,
            env.block,
            info.sender.canonical@,
            recipient.canonical@,
            token_key(token_id@),
        ) {
            Ok(next) => final(state)@ == next && r is Ok && r->Ok_0@ == next.tokens[token_key(
                token_id@,
            )],
            Err(e) => r == Err::<TokenInfo, ContractError>(e) && *final(state) == *old(state),
        },
{
    let (allowed, token) = match tokens(state).load(token_id.as_bytes()) {
        Some(current) => (
            check_can_send(state, env, info, current),
            TokenInfo {
                owner: copy_bytes(recipient.canonical.as_slice()),
                approvals: Vec::new(),
                name: current.name.clone(),
                level: current.level,
                description: current.description.clone(),
                image: duplicate_text(&current.image),
            },
        ),
        None => {
            return Err(ContractError::NotFound);
        },
    };
    match allowed {
        Err(e) => {
            return Err(e);
        },
        Ok(_) => {},
    }
    assert(token@.approvals =~= Seq::<ApprovalView>::empty());
    let stored = token.duplicate();
    state.save_token(token_id.to_owned(), stored);
    Ok(token)
}

/// Transfers a token.
pub fn handle_transfer_nft(
    state: &mut Registry,
    env: Env,
    info: MessageInfo,
    recipient: Address,
    token_id: String,
) -> (r: Result<HandleResponse, ContractError>)
    requires
        old(state).wf(),
        recipient.canonical@.len() > 0,
    ensures
        final(state).wf(),
        match transfer_result(
            old(state)@,
            env.block,
            info.sender.canonical@,
            recipient.canonical@,
            token_key(token_id@),
        ) {
            Ok(next) => final(state)@ == next && r is Ok && is_event(
                r->Ok_0,
                seq![
                    ("action"@, "transfer_nft"@),
                    ("sender"@, info.sender.human@),
                    ("recipient"@, recipient.human@),
                    ("token_id"@, token_id@),
                ],
            ),
            Err(e) => r == Err::<HandleResponse, ContractError>(e) && *final(state) == *old(state),
        },
{
    match _transfer_nft(state, &env, &info, &recipient, token_id.as_str()) {
        Err(e) => {
            return Err(e);
        },
        Ok(_) => {},
    }
    Ok(
        event(
            attributes4(
                attr("action", "transfer_nft"),
                attr("sender", info.sender.human.as_str()),
                attr("recipient", recipient.human.as_str()),
                attr("token_id", token_id.as_str()),
            ),
        ),
    )
}

/// Sends a token to a contract: the token is transferred to it, and the host
/// is told to give it notice of that, with the instructions in `msg`.
pub fn handle_send_nft(
    state: &mut Registry,
    env: Env,
    info: MessageInfo,
    contract: Address,
    token_id: String,
    msg: Option<Vec<u8>>,
) -> (r: Result<HandleResponse, ContractError>)
    requires
        old(state).wf(),
        contract.canonical@.len() > 0,
    ensures
        final(state).wf(),
        match transfer_result(
            old(state)@,
            env.block,
            info.sender.canonical@,
            contract.canonical@,
            token_key(token_id@),
        ) {
            Ok(next) => {
                &&& final(state)@ == next
                &&& r is Ok
                &&& r->Ok_0.messages@.len() == 1
                &&& r->Ok_0.messages@[0].is_notice(contract.human@, info.sender, token_id@, msg)
                &&& r->Ok_0.data is None
                &&& attributes_view(r->Ok_0.attributes@) == seq![
                    ("action"@, "send_nft"@),
                    ("sender"@, info.sender.human@),
                    ("recipient"@, contract.human@),
                    ("token_id"@, token_id@),
                ]
            },
            Err(e) => r == Err::<HandleResponse, ContractError>(e) && *final(state) == *old(state),
        },
{
    match _transfer_nft(state, &env, &info, &contract, token_id.as_str()) {
        Err(e) => {
            return Err(e);
        },
        Ok(_) => {},
    }
    let attributes = attributes4(
        attr("action", "send_nft"),
        attr("sender", info.sender.human.as_str()),
        attr("recipient", contract.human.as_str()),
        attr("token_id", token_id.as_str()),
    );
    let send = Cw721ReceiveMsg {
        sender: info.sender,
        token_id,
        msg: match msg {
            Some(bytes) => Payload::Given(bytes),
            None => Payload::Absent,
        },
    };
    let mut messages: Vec<Instruction> = Vec::new();
    messages.push(send.into_cosmos_msg(contract.human));
    Ok(HandleResponse { messages, attributes, data: None })
}

/// Holds of the approvals that are for another spender than `spender`.
pub open spec fn other_spender(spender: Seq<u8>) -> spec_fn(ApprovalView) -> bool {
    |a: ApprovalView| a.spender != spender
}

/// The approvals of a token after one for `spender` was given or taken back:
/// those for other spenders stay, in their order; a new one goes to the end.
pub open spec fn updated_approvals(
    approvals: Seq<ApprovalView>,
    spender: Seq<u8>,
    add: bool,
    expires: Expiration,
) -> Seq<ApprovalView> {
    let kept = approvals.filter(other_spender(spender));
    if add {
        kept.push(ApprovalView { spender, expires })
    } else {
        kept
    }
}

/// What giving (`add`) or taking back an approval does: the token must exist,
/// and the sender must be its owner or an operator of its owner; an approval
/// that has lapsed already cannot be given. Then the token has no approval for
/// the spender but the one given.
pub open spec fn update_approvals_result(
    state: RegistryView,
    block: BlockInfo,
    sender: Seq<u8>,
    spender: Seq<u8>,
    key: Seq<u8>,
    add: bool,
    expires: Option<Expiration>,
) -> Result<RegistryView, ContractError> {
    if !state.tokens.contains_key(key) {
        Err(ContractError::NotFound)
    } else if !can_approve(state, block, sender, state.tokens[key]) {
        Err(ContractError::Unauthorized)
    } else if add && expiry_or_never(expires).expired_at(block) {
        Err(ContractError::Expired)
    } else {
        let token = state.tokens[key];
        Ok(
            RegistryView {
                tokens: state.tokens.insert(
                    key,
                    TokenInfoView {
                        approvals: updated_approvals(
                            token.approvals,
                            spender,
                            add,
                            expiry_or_never(expires),
                        ),
                        ..token
                    },
                ),
                ..state
            },
        )
    }
}

fn without_spender(approvals: &Vec<Approval>, spender: &[u8]) -> (kept: Vec<Approval>)
    requires
        distinct_spenders(approvals_view(approvals@)),
    ensures
        approvals_view(kept@) == approvals_view(approvals@).filter(other_spender(spender@)),
        distinct_spenders(approvals_view(kept@)),
        forall|k: int|
            0 <= k < kept@.len() ==> (#[trigger] approvals_view(kept@)[k]).spender != spender@,
{
    let ghost all = approvals_view(approvals@);
    let mut kept: Vec<Approval> = Vec::new();
    let mut i: usize = 0;
    proof {
        reveal(Seq::filter);
        assert(all.take(0) =~= Seq::<ApprovalView>::empty());
        assert(approvals_view(kept@) =~= all.take(0).filter(other_spender(spender@)));
    }
    while i < approvals.len()
        invariant
            i <= approvals@.len(),
            all == approvals_view(approvals@),
            distinct_spenders(all),
            approvals_view(kept@) == all.take(i as int).filter(other_spender(spender@)),
            distinct_spenders(approvals_view(kept@)),
            forall|k: int|
                0 <= k < kept@.len() ==> (#[trigger] approvals_view(kept@)[k]).spender != spender@,
            forall|k: int, m: int|
                0 <= k < kept@.len() && i <= m < all.len() ==> (#[trigger] approvals_view(
                    kept@,
                )[k]).spender != (#[trigger] all[m]).spender,
        decreases approvals@.len() - i,
    {
        let ghost before = approvals_view(kept@);
        proof {
            assert(all.take(i as int).push(all[i as int]) =~= all.take(i + 1));
            all.take(i as int).lemma_filter_push(all[i as int], other_spender(spender@));
        }
        if !same_bytes(approvals[i].spender.as_slice(), spender) {
            kept.push(approvals[i].duplicate());
            proof {
                let after = approvals_view(kept@);
                assert(after =~= before.push(all[i as int]));
                assert forall|a: int, b: int| 0 <= a < b < after.len() implies (
                #[trigger] after[a]).spender != (#[trigger] after[b]).spender by {
                    if b == after.len() - 1 {
                        assert(after[a] == before[a]);
                        assert(before[a].spender != all[i as int].spender);
                    } else {
                        assert(after[a] == before[a] && after[b] == before[b]);
                    }
                }
                assert forall|k: int, m: int|
                    0 <= k < after.len() && i + 1 <= m < all.len() implies (
                #[trigger] after[k]).spender != (#[trigger] all[m]).spender by {
                    if k == after.len() - 1 {
                        assert(after[k] == all[i as int]);
                    } else {
                        assert(after[k] == before[k]);
                    }
                }
            }
        }
        i += 1;
    }
    assert(all.take(i as int) =~= all);
    kept
}

/// Gives (`add`) or takes back the approval of the spender for the token, and
/// hands back the new record of the token.
pub fn _update_approvals(
    state: &mut Registry,
    env: &Env,
    info: &MessageInfo,
    spender: &Address,
    token_id: &str,
    add: bool,
    expires: Option<Expiration>,
) -> (r: Result<TokenInfo, ContractError>)
    requires
        old(state).wf(),
    ensures
        final(state).wf(),
        match update_approvals_result(
            old(state)@,
            env.block,
            info.sender.canonical@,
            spender.canonical@,
            token_key(token_id@),
            add,
            expires,
        ) {
            Ok(next) => final(state)@ == next && r is Ok && r->Ok_0@ == next.tokens[token_key(
                token_id@,
            )],
            Err(e) => r == Err::<TokenInfo, ContractError>(e) && *final(state) == *old(state),
        },
{
    let ghost key = token_key(token_id@);
    let (allowed, kept, rest) = match tokens(state).load(token_id.as_bytes()) {
        Some(current) => {
            proof {
                state.lemma_records_are_sound(key);
            }
            (
                check_can_approve(state, env, info, current),
                without_spender(&current.approvals, spender.canonical.as_slice()),
                TokenInfo {
                    owner: copy_bytes(current.owner.as_slice()),
                    approvals: Vec::new(),
                    name: current.name.clone(),
                    level: current.level,
                    description: current.description.clone(),
                    image: duplicate_text(&current.image),
                },
            )
        },
        None => {
            return Err(ContractError::NotFound);
        },
    };
    match allowed {
        Err(e) => {
            return Err(e);
        },
        Ok(_) => {},
    }
    let mut approvals = kept;
    if add {
        let expires = match expires {
            Some(e) => e,
            None => Expiration::Never,
        };
        if expires.is_expired(&env.block) {
            return Err(ContractError::Expired);
        }
        let ghost before = approvals_view(approvals@);
        approvals.push(Approval { spender: copy_bytes(spender.canonical.as_slice()), expires });
        proof {
            let after = approvals_view(approvals@);
            assert(after =~= before.push(ApprovalView { spender: spender.canonical@, expires }));
            assert forall|a: int, b: int| 0 <= a < b < after.len() implies (
            #[trigger] after[a]).spender != (#[trigger] after[b]).spender by {
                assert(after[a] == before[a]);
                if b < after.len() - 1 {
                    assert(after[b] == before[b]);
                }
            }
        }
    }
    let token = TokenInfo {
        owner: rest.owner,
        approvals,
        name: rest.name,
        level: rest.level,
        description: rest.description,
        image: rest.image,
    };
    let stored = token.duplicate();
    state.save_token(token_id.to_owned(), stored);
    Ok(token)
}

/// Lets the spender transfer or send the token, until the expiry given, or for
/// good where none is given.
pub fn handle_approve(
    state: &mut Registry,
    env: Env,
    info: MessageInfo,
    spender: Address,
    token_id: String,
    expires: Option<Expiration>,
) -> (r: Result<HandleResponse, ContractError>)
    requires
        old(state).wf(),
    ensures
        final(state).wf(),
        match update_approvals_result(
            old(state)@,
            env.block,
            info.sender.canonical@,
            spender.canonical@,
            token_key(token_id@),
            true,
            expires,
        ) {
            Ok(next) => final(state)@ == next && r is Ok && is_event(
                r->Ok_0,
                seq![
                    ("action"@, "approve"@),
                    ("sender"@, info.sender.human@),
                    ("spender"@, spender.human@),
                    ("token_id"@, token_id@),
                ],
            ),
            Err(e) => r == Err::<HandleResponse, ContractError>(e) && *final(state) == *old(state),
        },
{
    match _update_approvals(state, &env, &info, &spender, token_id.as_str(), true, expires) {
        Err(e) => {
            return Err(e);
        },
        Ok(_) => {},
    }
    Ok(
        event(
            attributes4(
                attr("action", "approve"),
                attr("sender", info.sender.human.as_str()),
                attr("spender", spender.human.as_str()),
                attr("token_id", token_id.as_str()),
            ),
        ),
    )
}

/// Takes back the approval of the spender for the token. Where there is none
/// this changes nothing, and succeeds all the same.
pub fn handle_revoke(
    state: &mut Registry,
    env: Env,
    info: MessageInfo,
    spender: Address,
    token_id: String,
) -> (r: Result<HandleResponse, ContractError>)
    requires
        old(state).wf(),
    ensures
        final(state).wf(),
        match update_approvals_result(
            old(state)@,
            env.block,
            info.sender.canonical@,
            spender.canonical@,
            token_key(token_id@),
            false,
            None,
        ) {
            Ok(next) => final(state)@ == next && r is Ok && is_event(
                r->Ok_0,
                seq![
                    ("action"@, "revoke"@),
                    ("sender"@, info.sender.human@),
                    ("spender"@, spender.human@),
                    ("token_id"@, token_id@),
                ],
            ),
            Err(e) => r == Err::<HandleResponse, ContractError>(e) && *final(state) == *old(state),
        },
{
    match _update_approvals(state, &env, &info, &spender, token_id.as_str(), false, None) {
        Err(e) => {
            return Err(e);
        },
        Ok(_) => {},
    }
    Ok(
        event(
            attributes4(
                attr("action", "revoke"),
                attr("sender", info.sender.human.as_str()),
                attr("spender", spender.human.as_str()),
                attr("token_id", token_id.as_str()),
            ),
        ),
    )
}

/// What granting an operator does: a grant that has lapsed already cannot be
/// given; otherwise the sender's grant to the operator is the one given.
pub open spec fn approve_all_result(
    state: RegistryView,
    block: BlockInfo,
    sender: Seq<u8>,
    operator: Seq<u8>,
    expires: Option<Expiration>,
) -> Result<RegistryView, ContractError> {
    if expiry_or_never(expires).expired_at(block) {
        Err(ContractError::Expired)
    } else {
        Ok(
            RegistryView {
                operators: state.operators.insert((sender, operator), expiry_or_never(expires)),
                ..state
            },
        )
    }
}

/// Lets the operator transfer and send every token that the sender owns or
/// comes to own, until the expiry given, or for good where none is given.
pub fn handle_approve_all(
    state: &mut Registry,
    env: Env,
    info: MessageInfo,
    operator: Address,
    expires: Option<Expiration>,
) -> (r: Result<HandleResponse, ContractError>)
    requires
        old(state).wf(),
    ensures
        final(state).wf(),
        match approve_all_result(
            old(state)@,
            env.block,
            info.sender.canonical@,
            operator.canonical@,
            expires,
        ) {
            Ok(next) => final(state)@ == next && r is Ok && is_event(
                r->Ok_0,
                seq![
                    ("action"@, "approve_all"@),
                    ("sender"@, info.sender.human@),
                    ("operator"@, operator.human@),
                ],
            ),
            Err(e) => r == Err::<HandleResponse, ContractError>(e) && *final(state) == *old(state),
        },
{
    let expires = match expires {
        Some(e) => e,
        None => Expiration::Never,
    };
    if expires.is_expired(&env.block) {
        return Err(ContractError::Expired);
    }
    let attributes = attributes3(
        attr("action", "approve_all"),
        attr("sender", info.sender.human.as_str()),
        attr("operator", operator.human.as_str()),
    );
    state.save_operator(info.sender.canonical, operator.canonical, expires);
    Ok(event(attributes))
}

/// Takes back the sender's grant to the operator. Where there is none this
/// changes nothing, and succeeds all the same.
pub fn handle_revoke_all(
    state: &mut Registry,
    _env: Env,
    info: MessageInfo,
    operator: Address,
) -> (r: Result<HandleResponse, ContractError>)
    requires
        old(state).wf(),
    ensures
        final(state).wf(),
        final(state)@ == (RegistryView {
            operators: old(state)@.operators.remove((info.sender.canonical@, operator.canonical@)),
            ..old(state)@
        }),
        r is Ok,
        is_event(
            r->Ok_0,
            seq![
                ("action"@, "revoke_all"@),
                ("sender"@, info.sender.human@),
                ("operator"@, operator.human@),
            ],
        ),
{
    state.remove_operator(info.sender.canonical.as_slice(), operator.canonical.as_slice());
    Ok(
        event(
            attributes3(
                attr("action", "revoke_all"),
                attr("sender", info.sender.human.as_str()),
                attr("operator", operator.human.as_str()),
            ),
        ),
    )
}

/// The record of a token whose level went up by `gain`.
pub open spec fn levelled(token: TokenInfoView, gain: int) -> TokenInfoView {
    TokenInfoView { level: (token.level + gain) as u64, ..token }
}

/// What a battle does: both tokens must exist. The attacker wins unless its
/// level is below the defender's; the winner gains two levels and the loser
/// one. The record of the attacker is written first, that of the defender
/// second.
pub open spec fn battle_result(state: RegistryView, attacker: Seq<u8>, defender: Seq<u8>) -> Result<
    RegistryView,
    ContractError,
> {
    if !state.tokens.contains_key(attacker) || !state.tokens.contains_key(defender) {
        Err(ContractError::NotFound)
    } else {
        let a = state.tokens[attacker];
        let d = state.tokens[defender];
        let attacker_wins = a.level >= d.level;
        Ok(
            RegistryView {
                tokens: state.tokens.insert(
                    attacker,
                    levelled(
                        a,
                        if attacker_wins {
                            2
                        } else {
                            1
                        },
                    ),
                ).insert(
                    defender,
                    levelled(
                        d,
                        if attacker_wins {
                            1
                        } else {
                            2
                        },
                    ),
                ),
                ..state
            },
        )
    }
}

/// No level of a token that takes part in the battle is within two of the
/// largest number that a level can hold.
pub open spec fn levels_can_rise(
    state: RegistryView,
    attacker: Seq<u8>,
    defender: Seq<u8>,
) -> bool {
    &&& state.tokens.contains_key(attacker) ==> state.tokens[attacker].level <= u64::MAX - 2
    &&& state.tokens.contains_key(defender) ==> state.tokens[defender].level <= u64::MAX - 2
}

/// Lets two tokens fight.
pub fn handle_battle_monster(
    state: &mut Registry,
    _env: Env,
    _info: MessageInfo,
    attacker_id: String,
    defender_id: String,
) -> (r: Result<HandleResponse, ContractError>)
    requires
        old(state).wf(),
        levels_can_rise(old(state)@, token_key(attacker_id@), token_key(defender_id@)),
    ensures
        final(state).wf(),
        match battle_result(old(state)@, token_key(attacker_id@), token_key(defender_id@)) {
            Ok(next) => final(state)@ == next && r is Ok && is_event(
                r->Ok_0,
                seq![
                    ("action"@, "battle_monster"@),
                    ("attacker_id"@, attacker_id@),
                    ("defender_id"@, defender_id@),
                ],
            ),
            Err(e) => r == Err::<HandleResponse, ContractError>(e) && *final(state) == *old(state),
        },
{
    let ghost a_key = token_key(attacker_id@);
    let ghost d_key = token_key(defender_id@);
    let mut attacker = match tokens(state).load(attacker_id.as_str().as_bytes()) {
        Some(t) => t.duplicate(),
        None => {
            return Err(ContractError::NotFound);
        },
    };
    let mut defender = match tokens(state).load(defender_id.as_str().as_bytes()) {
        Some(t) => t.duplicate(),
        None => {
            return Err(ContractError::NotFound);
        },
    };
    proof {
        state.lemma_records_are_sound(a_key);
        state.lemma_records_are_sound(d_key);
    }
    if attacker.level >= defender.level {
        attacker.level = attacker.level + 2;
        defender.level = defender.level + 1;
    } else {
        attacker.level = attacker.level + 1;
        defender.level = defender.level + 2;
    }
    let attributes = attributes3(
        attr("action", "battle_monster"),
        attr("attacker_id", attacker_id.as_str()),
        attr("defender_id", defender_id.as_str()),
    );
    state.save_token(attacker_id, attacker);
    state.save_token(defender_id, defender);
    Ok(event(attributes))
}

/// What a call does to the state, by the kind of the call.
pub open spec fn handle_result(
    state: RegistryView,
    block: BlockInfo,
    sender: Seq<u8>,
    msg: HandleMsg,
) -> Result<RegistryView, ContractError> {
    match msg {
        HandleMsg::Mint(m) => mint_result(state, sender, token_key(m.token_id@), minted(m)),
        HandleMsg::BattleMonster { attacker_id, defender_id } => battle_result(
            state,
            token_key(attacker_id@),
            token_key(defender_id@),
        ),
        HandleMsg::Approve { spender, token_id, expires } => update_approvals_result(
            state,
            block,
            sender,
            spender.canonical@,
            token_key(token_id@),
            true,
            expires,
        ),
        HandleMsg::Revoke { spender, token_id } => update_approvals_result(
            state,
            block,
            sender,
            spender.canonical@,
            token_key(token_id@),
            false,
            None,
        ),
        HandleMsg::ApproveAll { operator, expires } => approve_all_result(
            state,
            block,
            sender,
            operator.canonical@,
            expires,
        ),
        HandleMsg::RevokeAll { operator } => Ok(
            RegistryView {
                operators: state.operators.remove((sender, operator.canonical@)),
                ..state
            },
        ),
        HandleMsg::TransferNft { recipient, token_id } => transfer_result(
            state,
            block,
            sender,
            recipient.canonical@,
            token_key(token_id@),
        ),
        HandleMsg::SendNft { contract, token_id, msg } => transfer_result(
            state,
            block,
            sender,
            contract.canonical@,
            token_key(token_id@),
        ),
    }
}

/// The event that a call emits where it succeeds, by the kind of the call.
pub open spec fn handle_event(sender: Seq<char>, msg: HandleMsg) -> Seq<(Seq<char>, Seq<char>)> {
    match msg {
        HandleMsg::Mint(m) => seq![
            ("action"@, "mint"@),
            ("minter"@, sender),
            ("token_id"@, m.token_id@),
        ],
        HandleMsg::BattleMonster { attacker_id, defender_id } => seq![
            ("action"@, "battle_monster"@),
            ("attacker_id"@, attacker_id@),
            ("defender_id"@, defender_id@),
        ],
        HandleMsg::Approve { spender, token_id, expires } => seq![
            ("action"@, "approve"@),
            ("sender"@, sender),
            ("spender"@, spender.human@),
            ("token_id"@, token_id@),
        ],
        HandleMsg::Revoke { spender, token_id } => seq![
            ("action"@, "revoke"@),
            ("sender"@, sender),
            ("spender"@, spender.human@),
            ("token_id"@, token_id@),
        ],
        HandleMsg::ApproveAll { operator, expires } => seq![
            ("action"@, "approve_all"@),
            ("sender"@, sender),
            ("operator"@, operator.human@),
        ],
        HandleMsg::RevokeAll { operator } => seq![
            ("action"@, "revoke_all"@),
            ("sender"@, sender),
            ("operator"@, operator.human@),
        ],
        HandleMsg::TransferNft { recipient, token_id } => seq![
            ("action"@, "transfer_nft"@),
            ("sender"@, sender),
            ("recipient"@, recipient.human@),
            ("token_id"@, token_id@),
        ],
        HandleMsg::SendNft { contract, token_id, msg } => seq![
            ("action"@, "send_nft"@),
            ("sender"@, sender),
            ("recipient"@, contract.human@),
            ("token_id"@, token_id@),
        ],
    }
}

/// The instructions that a call leaves to the host where it succeeds: a notice
/// to the contract to which a token was sent, and none for any other call.
pub open spec fn handle_instructions(
    info: MessageInfo,
    msg: HandleMsg,
    messages: Seq<Instruction>,
) -> bool {
    match msg {
        HandleMsg::SendNft { contract, token_id, msg } => messages.len() == 1
            && messages[0].is_notice(contract.human@, info.sender, token_id@, msg),
        _ => messages.len() == 0,
    }
}

/// What the call needs of the numbers in the state: a mint, that the count of
/// tokens can go up; a battle, that the levels can.
pub open spec fn numbers_fit(state: RegistryView, msg: HandleMsg) -> bool {
    match msg {
        HandleMsg::Mint(m) => state.token_count < u64::MAX,
        HandleMsg::BattleMonster { attacker_id, defender_id } => levels_can_rise(
            state,
            token_key(attacker_id@),
            token_key(defender_id@),
        ),
        _ => true,
    }
}

/// The call names the one to whom it gives a token: the canonical form of the
/// owner of a mint, and of the recipient of a transfer, is not empty.
pub open spec fn names_new_owner(msg: HandleMsg) -> bool {
    match msg {
        HandleMsg::Mint(m) => m.owner.canonical@.len() > 0,
        HandleMsg::TransferNft { recipient, token_id } => recipient.canonical@.len() > 0,
        HandleMsg::SendNft { contract, token_id, msg } => contract.canonical@.len() > 0,
        _ => true,
    }
}

/// Handles a call that changes the state. A call that is refused leaves the
/// state as it was.
pub fn handle(state: &mut Registry, env: Env, info: MessageInfo, msg: HandleMsg) -> (r: Result<
    HandleResponse,
    ContractError,
>)
    requires
        old(state).wf(),
        numbers_fit(old(state)@, msg),
        names_new_owner(msg),
    ensures
        final(state).wf(),
        match handle_result(old(state)@, env.block, info.sender.canonical@, msg) {
            Ok(next) => {
                &&& final(state)@ == next
                &&& r is Ok
                &&& r->Ok_0.data is None
                &&& attributes_view(r->Ok_0.attributes@) == handle_event(info.sender.human@, msg)
                &&& handle_instructions(info, msg, r->Ok_0.messages@)
            },
            Err(e) => r == Err::<HandleResponse, ContractError>(e) && *final(state) == *old(state),
        },
{
    match msg {
        HandleMsg::Mint(msg) => handle_mint(state, env, info, msg),
        HandleMsg::BattleMonster { attacker_id, defender_id } => handle_battle_monster(
            state,
            env,
            info,
            attacker_id,
            defender_id,
        ),
        HandleMsg::Approve { spender, token_id, expires } => handle_approve(
            state,
            env,
            info,
            spender,
            token_id,
            expires,
        ),
        HandleMsg::Revoke { spender, token_id } => handle_revoke(
            state,
            env,
            info,
            spender,
            token_id,
        ),
        HandleMsg::ApproveAll { operator, expires } => handle_approve_all(
            state,
            env,
            info,
            operator,
            expires,
        ),
        HandleMsg::RevokeAll { operator } => handle_revoke_all(state, env, info, operator),
        HandleMsg::TransferNft { recipient, token_id } => handle_transfer_nft(
            state,
            env,
            info,
            recipient,
            token_id,
        ),
        HandleMsg::SendNft { contract, token_id, msg } => handle_send_nft(
            state,
            env,
            info,
            contract,
            token_id,
            msg,
        ),
    }
}

/// The cursor of a listing of tokens: the key of the identifier after which it
/// is to continue.
pub open spec fn token_cursor(start_after: Option<String>) -> Option<Seq<u8>> {
    match start_after {
        Some(id) => Some(token_key(id@)),
        None => None,
    }
}

/// The cursor of a listing of participants: the canonical form of the one
/// after which it is to continue.
pub open spec fn address_cursor(start_after: Option<Address>) -> Option<Seq<u8>> {
    match start_after {
        Some(a) => Some(a.canonical@),
        None => None,
    }
}

/// Holds of the grants that a listing shows: all of them where those that have
/// lapsed are asked for too, else those that have not lapsed at `block`.
pub open spec fn shown(block: BlockInfo, include_expired: bool) -> spec_fn(ApprovalView) -> bool {
    |a: ApprovalView| include_expired || !a.expires.expired_at(block)
}

/// Grants as they are listed, each as an approval of its spender.
pub open spec fn as_approvals(grants: Seq<(Seq<u8>, Expiration)>) -> Seq<ApprovalView> {
    grants.map_values(|g: (Seq<u8>, Expiration)| ApprovalView { spender: g.0, expires: g.1 })
}

/// One page of the operators of an owner: of the grants after the cursor,
/// those that the listing shows, and of these the first `size`.
pub open spec fn grants_page(
    grants: Seq<(Seq<u8>, Expiration)>,
    block: BlockInfo,
    include_expired: bool,
    start_after: Option<Seq<u8>>,
    size: nat,
) -> Seq<ApprovalView> {
    first_n(
        as_approvals(entries_after(grants, start_after)).filter(shown(block, include_expired)),
        size,
    )
}

/// The one participant that may mint.
pub fn query_minter(state: &Registry) -> (r: MinterResponse)
    ensures
        r.minter@ == state@.minter,
{
    MinterResponse { minter: copy_bytes(state.minter().as_slice()) }
}

/// The name and the symbol of the collection.
pub fn query_contract_info(state: &Registry) -> (r: ContractInfoResponse)
    ensures
        r.name@ == state@.name,
        r.symbol@ == state@.symbol,
{
    let info = state.contract_info();
    ContractInfoResponse { name: info.name.clone(), symbol: info.symbol.clone() }
}

/// The total supply: the number of tokens minted so far.
pub fn query_num_tokens(state: &Registry) -> (r: NumTokensResponse)
    ensures
        r.count == state@.token_count,
{
    NumTokensResponse { count: num_tokens(state) }
}

/// What the record `token` shows of itself.
pub open spec fn shows(r: NftInfoResponse, token: TokenInfoView) -> bool {
    &&& r.name@ == token.name
    &&& r.level == token.level
    &&& r.description@ == token.description
    &&& text_view(r.image) == token.image
}

fn nft_info(token: &TokenInfo) -> (r: NftInfoResponse)
    ensures
        shows(r, token@),
{
    NftInfoResponse {
        name: token.name.clone(),
        level: token.level,
        description: token.description.clone(),
        image: duplicate_text(&token.image),
    }
}

/// What a token shows of itself.
pub fn query_nft_info(state: &Registry, token_id: String) -> (r: Result<
    NftInfoResponse,
    ContractError,
>)
    requires
        state.wf(),
    ensures
        match r {
            Ok(info) => state@.tokens.contains_key(token_key(token_id@)) && shows(
                info,
                state@.tokens[token_key(token_id@)],
            ),
            Err(e) => e == ContractError::NotFound && !state@.tokens.contains_key(
                token_key(token_id@),
            ),
        },
{
    match tokens(state).load(token_id.as_str().as_bytes()) {
        Some(token) => Ok(nft_info(token)),
        None => Err(ContractError::NotFound),
    }
}

/// The approvals of a token that a query shows, in the order in which they
/// were given: all of them where those that have lapsed are asked for too,
/// else those that have not lapsed at `block`.
pub fn shown_approvals(block: &BlockInfo, info: &TokenInfo, include_expired: bool) -> (r: Vec<
    Approval,
>)
    ensures
        approvals_view(r@) == info@.approvals.filter(shown(*block, include_expired)),
{
    let ghost all = info@.approvals;
    let mut r: Vec<Approval> = Vec::new();
    let mut i: usize = 0;
    proof {
        reveal(Seq::filter);
        assert(all.take(0) =~= Seq::<ApprovalView>::empty());
        assert(approvals_view(r@) =~= all.take(0).filter(shown(*block, include_expired)));
    }
    while i < info.approvals.len()
        invariant
            i <= info.approvals@.len(),
            all == approvals_view(info.approvals@),
            approvals_view(r@) == all.take(i as int).filter(shown(*block, include_expired)),
        decreases info.approvals@.len() - i,
    {
        let ghost before = approvals_view(r@);
        proof {
            assert(all.take(i as int).push(all[i as int]) =~= all.take(i + 1));
            all.take(i as int).lemma_filter_push(all[i as int], shown(*block, include_expired));
        }
        if include_expired || !info.approvals[i].expires.is_expired(block) {
            r.push(info.approvals[i].duplicate());
            assert(approvals_view(r@) =~= before.push(all[i as int]));
        }
        i += 1;
    }
    assert(all.take(i as int) =~= all);
    r
}

/// Who may transfer the token with the record `token`, as a query at `block`
/// shows it.
pub open spec fn shows_access(
    r: OwnerOfResponse,
    token: TokenInfoView,
    block: BlockInfo,
    include_expired: bool,
) -> bool {
    &&& r.owner@ == token.owner
    &&& approvals_view(r.approvals@) == token.approvals.filter(shown(block, include_expired))
}

fn owner_of(env: &Env, token: &TokenInfo, include_expired: bool) -> (r: OwnerOfResponse)
    ensures
        shows_access(r, token@, env.block, include_expired),
{
    OwnerOfResponse {
        owner: copy_bytes(token.owner.as_slice()),
        approvals: shown_approvals(&env.block, token, include_expired),
    }
}

/// The owner of a token and the approvals given for it.
pub fn query_owner_of(state: &Registry, env: Env, token_id: String, include_expired: bool) -> (r:
    Result<OwnerOfResponse, ContractError>)
    requires
        state.wf(),
    ensures
        match r {
            Ok(access) => state@.tokens.contains_key(token_key(token_id@)) && shows_access(
                access,
                state@.tokens[token_key(token_id@)],
                env.block,
                include_expired,
            ),
            Err(e) => e == ContractError::NotFound && !state@.tokens.contains_key(
                token_key(token_id@),
            ),
        },
{
    match tokens(state).load(token_id.as_str().as_bytes()) {
        Some(token) => Ok(owner_of(&env, token, include_expired)),
        None => Err(ContractError::NotFound),
    }
}

/// Who may transfer a token, and what the token shows of itself.
pub fn query_all_nft_info(
    state: &Registry,
    env: Env,
    token_id: String,
    include_expired: bool,
) -> (r: Result<AllNftInfoResponse, ContractError>)
    requires
        state.wf(),
    ensures
        match r {
            Ok(all) => {
                &&& state@.tokens.contains_key(token_key(token_id@))
                &&& shows_access(
                    all.access,
                    state@.tokens[token_key(token_id@)],
                    env.block,
                    include_expired,
                )
                &&& shows(all.info, state@.tokens[token_key(token_id@)])
            },
            Err(e) => e == ContractError::NotFound && !state@.tokens.contains_key(
                token_key(token_id@),
            ),
        },
{
    match tokens(state).load(token_id.as_str().as_bytes()) {
        Some(token) => Ok(
            AllNftInfoResponse {
                access: owner_of(&env, token, include_expired),
                info: nft_info(token),
            },
        ),
        None => Err(ContractError::NotFound),
    }
}

/// One page of the operators of an owner, in ascending order of the operators'
/// canonical form.
pub fn query_all_approvals(
    state: &Registry,
    env: Env,
    owner: Address,
    include_expired: bool,
    start_after: Option<Address>,
    limit: Option<u32>,
) -> (r: ApprovedForAllResponse)
    requires
        state.wf(),
    ensures
        approvals_view(r.operators@) == grants_page(
            state.grants_of(owner.canonical@),
            env.block,
            include_expired,
            address_cursor(start_after),
            page_size(limit),
        ),
{
    let size = effective_limit(limit);
    let start: Option<&[u8]> = match &start_after {
        Some(a) => Some(a.canonical.as_slice()),
        None => None,
    };
    let ghost pred = shown(env.block, include_expired);
    let mut operators: Vec<Approval> = Vec::new();
    match state.operators_of(owner.canonical.as_slice()) {
        None => {
            proof {
                let none = Seq::<(Seq<u8>, Expiration)>::empty();
                reveal(Seq::filter);
                assert(entries_after(none, address_cursor(start_after)) =~= none);
                assert(as_approvals(none) =~= Seq::<ApprovalView>::empty());
                assert(approvals_view(operators@) =~= Seq::<ApprovalView>::empty());
            }
        },
        Some(grants) => {
            let p = grants.first_after(start);
            let ghost rest = as_approvals(grants.entries().skip(p as int));
            let mut i: usize = p;
            proof {
                reveal(Seq::filter);
                assert(rest.take(0) =~= Seq::<ApprovalView>::empty());
                assert(approvals_view(operators@) =~= rest.take(0).filter(pred));
            }
            while i < grants.len() && operators.len() < size
                invariant
                    p <= i <= grants.entries().len(),
                    rest == as_approvals(grants.entries().skip(p as int)),
                    pred == shown(env.block, include_expired),
                    operators@.len() <= size,
                    approvals_view(operators@) == rest.take(i - p).filter(pred),
                decreases grants.entries().len() - i,
            {
                let ghost before = approvals_view(operators@);
                proof {
                    assert(rest.take(i - p).push(rest[i - p]) =~= rest.take(i - p + 1));
                    rest.take(i - p).lemma_filter_push(rest[i - p], pred);
                }
                let expires: Expiration = *grants.value_at(i);
                if include_expired || !expires.is_expired(&env.block) {
                    operators.push(
                        Approval { spender: copy_bytes(grants.key_at(i).as_slice()), expires },
                    );
                    assert(approvals_view(operators@) =~= before.push(rest[i - p]));
                }
                i += 1;
            }
            proof {
                let taken = rest.take(i - p);
                let left = rest.skip(i - p);
                assert(taken + left =~= rest);
                Seq::filter_distributes_over_add(taken, left, pred);
                if i == grants.entries().len() {
                    assert(left =~= Seq::<ApprovalView>::empty());
                    assert(left.filter(pred) =~= Seq::<ApprovalView>::empty());
                    assert(rest.filter(pred) =~= taken.filter(pred));
                } else {
                    assert((taken.filter(pred) + left.filter(pred)).take(size as int)
                        =~= taken.filter(pred));
                }
            }
        },
    }
    ApprovedForAllResponse { operators }
}

/// One page of the identifiers of the tokens of an owner, in ascending order.
pub fn query_tokens(state: &Registry, owner: Address, start_after: Option<String>, limit: Option<
    u32,
>) -> (r: TokensResponse)
    requires
        state.wf(),
    ensures
        id_keys(r.tokens@) == page(
            state.owned_ids(owner.canonical@),
            token_cursor(start_after),
            page_size(limit),
        ),
{
    let size = effective_limit(limit);
    let start: Option<&[u8]> = match &start_after {
        Some(id) => Some(id.as_str().as_bytes()),
        None => None,
    };
    TokensResponse { tokens: tokens(state).owned_page(owner.canonical.as_slice(), start, size) }
}

/// One page of the identifiers of all tokens, in ascending order.
pub fn query_all_tokens(state: &Registry, start_after: Option<String>, limit: Option<u32>) -> (r:
    TokensResponse)
    requires
        state.wf(),
    ensures
        id_keys(r.tokens@) == page(
            state.token_ids(),
            token_cursor(start_after),
            page_size(limit),
        ),
{
    let size = effective_limit(limit);
    let start: Option<&[u8]> = match &start_after {
        Some(id) => Some(id.as_str().as_bytes()),
        None => None,
    };
    TokensResponse { tokens: tokens(state).ids_page(start, size) }
}

/// Whether a query shows grants that have lapsed: only where it asks for them.
pub open spec fn asks_expired(include_expired: Option<bool>) -> bool {
    include_expired == Some(true)
}

/// Handles a call that reads the state.
pub fn query(state: &Registry, env: Env, msg: QueryMsg) -> (r: Result<QueryResponse, ContractError>)
    requires
        state.wf(),
    ensures
        match msg {
            QueryMsg::Minter => r matches Ok(QueryResponse::Minter(m)) && m.minter@
                == state@.minter,
            QueryMsg::ContractInfo => r matches Ok(QueryResponse::ContractInfo(c)) && c.name@
                == state@.name && c.symbol@ == state@.symbol,
            QueryMsg::NumTokens => r matches Ok(QueryResponse::NumTokens(n)) && n.count
                == state@.token_count,
            QueryMsg::NftInfo { token_id } => if state@.tokens.contains_key(token_key(token_id@)) {
                r matches Ok(QueryResponse::NftInfo(info)) && shows(
                    info,
                    state@.tokens[token_key(token_id@)],
                )
            } else {
                r == Err::<QueryResponse, ContractError>(ContractError::NotFound)
            },
            QueryMsg::OwnerOf { token_id, include_expired } => if state@.tokens.contains_key(
                token_key(token_id@),
            ) {
                r matches Ok(QueryResponse::OwnerOf(access)) && shows_access(
                    access,
                    state@.tokens[token_key(token_id@)],
                    env.block,
                    asks_expired(include_expired),
                )
            } else {
                r == Err::<QueryResponse, ContractError>(ContractError::NotFound)
            },
            QueryMsg::AllNftInfo { token_id, include_expired } => if state@.tokens.contains_key(
                token_key(token_id@),
            ) {
                r matches Ok(QueryResponse::AllNftInfo(all)) && shows_access(
                    all.access,
                    state@.tokens[token_key(token_id@)],
                    env.block,
                    asks_expired(include_expired),
                ) && shows(all.info, state@.tokens[token_key(token_id@)])
            } else {
                r == Err::<QueryResponse, ContractError>(ContractError::NotFound)
            },
            QueryMsg::ApprovedForAll { owner, include_expired, start_after, limit } => r matches Ok(
                QueryResponse::ApprovedForAll(a),
            ) && approvals_view(a.operators@) == grants_page(
                state.grants_of(owner.canonical@),
                env.block,
                asks_expired(include_expired),
                address_cursor(start_after),
                page_size(limit),
            ),
            QueryMsg::Tokens { owner, start_after, limit } => r matches Ok(
                QueryResponse::Tokens(t),
            ) && id_keys(t.tokens@) == page(
                state.owned_ids(owner.canonical@),
                token_cursor(start_after),
                page_size(limit),
            ),
            QueryMsg::AllTokens { start_after, limit } => r matches Ok(QueryResponse::Tokens(t))
                && id_keys(t.tokens@) == page(
                state.token_ids(),
                token_cursor(start_after),
                page_size(limit),
            ),
        },
{
    match msg {
        QueryMsg::Minter => Ok(QueryResponse::Minter(query_minter(state))),
        QueryMsg::ContractInfo => Ok(QueryResponse::ContractInfo(query_contract_info(state))),
        QueryMsg::NftInfo { token_id } => match query_nft_info(state, token_id) {
            Ok(info) => Ok(QueryResponse::NftInfo(info)),
            Err(e) => Err(e),
        },
        QueryMsg::OwnerOf { token_id, include_expired } => match query_owner_of(
            state,
            env,
            token_id,
            flag(include_expired),
        ) {
            Ok(access) => Ok(QueryResponse::OwnerOf(access)),
            Err(e) => Err(e),
        },
        QueryMsg::AllNftInfo { token_id, include_expired } => match query_all_nft_info(
            state,
            env,
            token_id,
            flag(include_expired),
        ) {
            Ok(all) => Ok(QueryResponse::AllNftInfo(all)),
            Err(e) => Err(e),
        },
        QueryMsg::ApprovedForAll { owner, include_expired, start_after, limit } => Ok(
            QueryResponse::ApprovedForAll(
                query_all_approvals(state, env, owner, flag(include_expired), start_after, limit),
            ),
        ),
        QueryMsg::NumTokens => Ok(QueryResponse::NumTokens(query_num_tokens(state))),
        QueryMsg::Tokens { owner, start_after, limit } => Ok(
            QueryResponse::Tokens(query_tokens(state, owner, start_after, limit)),
        ),
        QueryMsg::AllTokens { start_after, limit } => Ok(
            QueryResponse::Tokens(query_all_tokens(state, start_after, limit)),
        ),
    }
}

fn flag(include_expired: Option<bool>) -> (b: bool)
    ensures
        b == asks_expired(include_expired),
{
    match include_expired {
        Some(b) => b,
        None => false,
    }
}

} // verus!
