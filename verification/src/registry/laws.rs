//! What holds of the registry whatever the state and the call.

use crate::error::ContractError;
use crate::expiration::{expiry_or_never, BlockInfo, Expiration};
use crate::registry::contract::{
    approve_all_result, can_approve, can_send, handle_result, has_live_approval,
    is_live_operator, mint_result, names_new_owner, numbers_fit, other_spender,
    transfer_result, update_approvals_result, updated_approvals,
};
use crate::registry::msg::HandleMsg;
use crate::registry::state::{
    distinct_spenders, sound, ApprovalView, Registry, RegistryView, TokenInfoView,
};
use vstd::prelude::*;

verus! {

/// A transfer takes every approval from the token and leaves the operator
/// grants as they are. The index by owner lists the token under its new owner,
/// and no longer under the old one where the two differ; of every other token
/// it lists what it listed before.
pub proof fn lemma_transfer_moves_token(
    before: Registry,
    after: Registry,
    block: BlockInfo,
    sender: Seq<u8>,
    recipient: Seq<u8>,
    token: Seq<u8>,
)
    requires
        before.wf(),
        after.wf(),
        transfer_result(before@, block, sender, recipient, token) == Ok::<
            RegistryView,
            ContractError,
        >(after@),
    ensures
        after@.tokens[token].owner == recipient,
        after@.tokens[token].approvals.len() == 0,
        after@.operators == before@.operators,
        before.owned_ids(before@.tokens[token].owner).contains(token),
        after.owned_ids(recipient).contains(token),
        before@.tokens[token].owner != recipient ==> !after.owned_ids(
            before@.tokens[token].owner,
        ).contains(token),
        forall|owner: Seq<u8>, other: Seq<u8>|
            other != token ==> (after.owned_ids(owner).contains(other) <==> before.owned_ids(
                owner,
            ).contains(other)),
{
    let old_owner = before@.tokens[token].owner;
    before.lemma_owned_ids(old_owner);
    after.lemma_owned_ids(old_owner);
    after.lemma_owned_ids(recipient);
    assert forall|owner: Seq<u8>, other: Seq<u8>| other != token implies (after.owned_ids(
        owner,
    ).contains(other) <==> before.owned_ids(owner).contains(other)) by {
        before.lemma_owned_ids(owner);
        after.lemma_owned_ids(owner);
    }
}

/// After a transfer nobody can send the token on the strength of an approval:
/// the new owner can, and the operators of the new owner.
pub proof fn lemma_transfer_ends_approvals(
    before: RegistryView,
    after: RegistryView,
    block: BlockInfo,
    sender: Seq<u8>,
    recipient: Seq<u8>,
    token: Seq<u8>,
    later: BlockInfo,
    spender: Seq<u8>,
)
    requires
        transfer_result(before, block, sender, recipient, token) == Ok::<
            RegistryView,
            ContractError,
        >(after),
    ensures
        !has_live_approval(after.tokens[token].approvals, later, spender),
        can_send(after, later, spender, after.tokens[token]) <==> (spender == recipient
            || is_live_operator(after, later, recipient, spender)),
{
}

/// A token identifier can be minted once: after a mint the minter's next mint
/// under the same identifier is refused as claimed, whatever record it
/// brings, and the count of tokens has gone up by one, once.
pub proof fn lemma_mint_once(
    before: RegistryView,
    after: RegistryView,
    sender: Seq<u8>,
    token: Seq<u8>,
    first: TokenInfoView,
    second: TokenInfoView,
)
    requires
        before.token_count < u64::MAX,
        mint_result(before, sender, token, first) == Ok::<RegistryView, ContractError>(after),
    ensures
        after.token_count == before.token_count + 1,
        after.tokens[token] == first,
        mint_result(after, sender, token, second) == Err::<RegistryView, ContractError>(
            ContractError::Claimed,
        ),
{
}

/// Only the minter mints: from anyone else a mint is refused as unauthorized,
/// whether the identifier is taken or not.
pub proof fn lemma_only_minter_mints(
    state: RegistryView,
    sender: Seq<u8>,
    token: Seq<u8>,
    record: TokenInfoView,
)
    requires
        sender != state.minter,
    ensures
        mint_result(state, sender, token, record) == Err::<RegistryView, ContractError>(
            ContractError::Unauthorized,
        ),
{
}

/// A grant that has lapsed already cannot be given: neither an approval for a
/// token, which the owner of the token and its operators are refused as
/// expired, nor an operator grant, which everyone is.
pub proof fn lemma_lapsed_grant_rejected(
    state: RegistryView,
    block: BlockInfo,
    sender: Seq<u8>,
    spender: Seq<u8>,
    token: Seq<u8>,
    expires: Expiration,
)
    requires
        expires.expired_at(block),
    ensures
        update_approvals_result(state, block, sender, spender, token, true, Some(expires)) is Err,
        state.tokens.contains_key(token) && can_approve(state, block, sender, state.tokens[token])
            ==> update_approvals_result(state, block, sender, spender, token, true, Some(expires))
            == Err::<RegistryView, ContractError>(ContractError::Expired),
        approve_all_result(state, block, sender, spender, Some(expires)) == Err::<
            RegistryView,
            ContractError,
        >(ContractError::Expired),
{
}

/// The approvals of a token after one was given: the one given is the last and
/// the only one for its spender, and no spender has two.
pub proof fn lemma_one_approval_per_spender(
    approvals: Seq<ApprovalView>,
    spender: Seq<u8>,
    expires: Expiration,
)
    requires
        distinct_spenders(approvals),
    ensures
        distinct_spenders(updated_approvals(approvals, spender, true, expires)),
        updated_approvals(approvals, spender, true, expires).last() == (ApprovalView {
            spender,
            expires,
        }),
        forall|i: int|
            0 <= i < updated_approvals(approvals, spender, true, expires).len() - 1 ==> (
            #[trigger] updated_approvals(approvals, spender, true, expires)[i]).spender != spender,
        distinct_spenders(updated_approvals(approvals, spender, false, expires)),
        forall|i: int|
            0 <= i < updated_approvals(approvals, spender, false, expires).len() ==> (
            #[trigger] updated_approvals(approvals, spender, false, expires)[i]).spender != spender,
{
    let kept = approvals.filter(other_spender(spender));
    lemma_filter_keeps_distinct(approvals, spender);
    let given = updated_approvals(approvals, spender, true, expires);
    assert forall|i: int, j: int| 0 <= i < j < given.len() implies (#[trigger] given[i]).spender
        != (#[trigger] given[j]).spender by {
        assert(given[i] == kept[i]);
        if j < given.len() - 1 {
            assert(given[j] == kept[j]);
        }
    }
    assert forall|i: int| 0 <= i < given.len() - 1 implies (#[trigger] given[i]).spender
        != spender by {
        assert(given[i] == kept[i]);
    }
}

/// Taking the approvals of one spender out of a list in which no spender has
/// two leaves such a list, without that spender.
proof fn lemma_filter_keeps_distinct(approvals: Seq<ApprovalView>, spender: Seq<u8>)
    requires
        distinct_spenders(approvals),
    ensures
        distinct_spenders(approvals.filter(other_spender(spender))),
        forall|i: int|
            0 <= i < approvals.filter(other_spender(spender)).len() ==> (
            #[trigger] approvals.filter(other_spender(spender))[i]).spender != spender,
        forall|i: int|
            0 <= i < approvals.filter(other_spender(spender)).len() ==> approvals.contains(
                #[trigger] approvals.filter(other_spender(spender))[i],
            ),
    decreases approvals.len(),
{
    reveal(Seq::filter);
    let pred = other_spender(spender);
    let kept = approvals.filter(pred);
    if approvals.len() > 0 {
        let front = approvals.drop_last();
        let last = approvals.last();
        assert forall|i: int, j: int| 0 <= i < j < front.len() implies (
        #[trigger] front[i]).spender != (#[trigger] front[j]).spender by {
            assert(front[i] == approvals[i] && front[j] == approvals[j]);
        }
        lemma_filter_keeps_distinct(front, spender);
        let kept_front = front.filter(pred);
        assert forall|i: int| 0 <= i < kept.len() implies approvals.contains(
            #[trigger] kept[i],
        ) by {
            if i < kept_front.len() {
                assert(front.contains(kept_front[i]));
                let m = choose|m: int| 0 <= m < front.len() && front[m] == kept_front[i];
                assert(approvals[m] == kept[i]);
            } else {
                assert(approvals[approvals.len() - 1] == kept[i]);
            }
        }
        assert forall|i: int, j: int| 0 <= i < j < kept.len() implies (
        #[trigger] kept[i]).spender != (#[trigger] kept[j]).spender by {
            if j == kept_front.len() {
                assert(front.contains(kept_front[i]));
                let m = choose|m: int| 0 <= m < front.len() && front[m] == kept_front[i];
                assert(approvals[m] == kept[i]);
                assert(approvals[approvals.len() - 1] == kept[j]);
            }
        }
    }
}

/// An approval that is given without an expiry never lapses: whoever holds it
/// can send the token at every block, as long as the token has not changed its
/// owner and the approval has not been taken back.
pub proof fn lemma_approval_without_expiry_holds(
    before: RegistryView,
    after: RegistryView,
    block: BlockInfo,
    sender: Seq<u8>,
    spender: Seq<u8>,
    token: Seq<u8>,
    later: BlockInfo,
)
    requires
        update_approvals_result(before, block, sender, spender, token, true, None) == Ok::<
            RegistryView,
            ContractError,
        >(after),
    ensures
        !expiry_or_never(None).expired_at(later),
        has_live_approval(after.tokens[token].approvals, later, spender),
        can_send(after, later, spender, after.tokens[token]),
{
    let approvals = after.tokens[token].approvals;
    let last = approvals.len() - 1;
    assert(approvals[last].spender == spender && !approvals[last].expires.expired_at(later));
}

/// Who can send a token, case by case: the owner always; the holder of an
/// approval from the block in which it was given up to the last block before
/// its expiry, and not from the expiry on; an operator of the owner likewise;
/// and nobody else.
pub proof fn lemma_can_send_cases(
    state: RegistryView,
    block: BlockInfo,
    sender: Seq<u8>,
    token: TokenInfoView,
)
    ensures
        sender == token.owner ==> can_send(state, block, sender, token),
        has_live_approval(token.approvals, block, sender) ==> can_send(
            state,
            block,
            sender,
            token,
        ),
        is_live_operator(state, block, token.owner, sender) ==> can_send(
            state,
            block,
            sender,
            token,
        ),
        sender != token.owner && !has_live_approval(token.approvals, block, sender)
            && !is_live_operator(state, block, token.owner, sender) ==> !can_send(
            state,
            block,
            sender,
            token,
        ),
{
}

/// A single approval at the boundary of its expiry: it lets its holder send in
/// the block before the height named, and no longer in the block of that
/// height nor in any later one. The same holds of a time, and of the grant of
/// an operator.
pub proof fn lemma_grant_at_boundary(
    state: RegistryView,
    block: BlockInfo,
    sender: Seq<u8>,
    token: TokenInfoView,
    at: u64,
)
    requires
        sender != token.owner,
        !state.operators.contains_key((token.owner, sender)),
    ensures
        token.approvals == seq![ApprovalView { spender: sender, expires: Expiration::AtHeight(at) }]
            ==> (can_send(state, block, sender, token) <==> block.height < at),
        token.approvals == seq![ApprovalView { spender: sender, expires: Expiration::AtTime(at) }]
            ==> (can_send(state, block, sender, token) <==> block.time < at),
{
    if token.approvals == seq![
        ApprovalView { spender: sender, expires: Expiration::AtHeight(at) },
    ] {
        assert(token.approvals[0].spender == sender);
    }
    if token.approvals == seq![ApprovalView { spender: sender, expires: Expiration::AtTime(at) }] {
        assert(token.approvals[0].spender == sender);
    }
}

/// The grant of an operator at the boundary of its expiry: it lets the
/// operator send a token of the owner, for which it holds no approval, in the
/// block before the height named and no longer from that height on; the same
/// holds of a time.
pub proof fn lemma_operator_at_boundary(
    state: RegistryView,
    block: BlockInfo,
    sender: Seq<u8>,
    token: TokenInfoView,
    at: u64,
)
    requires
        sender != token.owner,
        token.approvals.len() == 0,
        state.operators.contains_key((token.owner, sender)),
    ensures
        state.operators[(token.owner, sender)] == Expiration::AtHeight(at) ==> (can_send(
            state,
            block,
            sender,
            token,
        ) <==> block.height < at),
        state.operators[(token.owner, sender)] == Expiration::AtTime(at) ==> (can_send(
            state,
            block,
            sender,
            token,
        ) <==> block.time < at),
        state.operators[(token.owner, sender)] == Expiration::Never ==> can_send(
            state,
            block,
            sender,
            token,
        ),
{
}

/// The grant of an operator is a standing grant on the owner, not on a token:
/// a transfer of a token leaves it in place, and it covers every token that
/// the owner owns, whenever that token came to the owner.
pub proof fn lemma_operator_grant_stands(
    before: RegistryView,
    after: RegistryView,
    block: BlockInfo,
    sender: Seq<u8>,
    recipient: Seq<u8>,
    token: Seq<u8>,
    owner: Seq<u8>,
    operator: Seq<u8>,
    later: BlockInfo,
    other: Seq<u8>,
)
    requires
        transfer_result(before, block, sender, recipient, token) == Ok::<
            RegistryView,
            ContractError,
        >(after),
        after.tokens.contains_key(other),
        after.tokens[other].owner == owner,
    ensures
        is_live_operator(after, later, owner, operator) <==> is_live_operator(
            before,
            later,
            owner,
            operator,
        ),
        is_live_operator(after, later, owner, operator) ==> can_send(
            after,
            later,
            operator,
            after.tokens[other],
        ),
{
}

/// No call takes a token away: a token that exists before a call exists after
/// it, whatever the call. And the count of tokens never goes down: it goes up
/// by one with a mint, and stays as it is with every other call.
pub proof fn lemma_tokens_stay(
    before: RegistryView,
    after: RegistryView,
    block: BlockInfo,
    sender: Seq<u8>,
    msg: HandleMsg,
    token: Seq<u8>,
)
    requires
        numbers_fit(before, msg),
        handle_result(before, block, sender, msg) == Ok::<RegistryView, ContractError>(after),
        before.tokens.contains_key(token),
    ensures
        after.tokens.contains_key(token),
        after.minter == before.minter,
        after.token_count == before.token_count + (if msg is Mint {
            1int
        } else {
            0int
        }),
{
}

/// Only the two calls that are about operators change the operator grants,
/// and they change those of the sender only.
pub proof fn lemma_grants_change_by_their_owner(
    before: RegistryView,
    after: RegistryView,
    block: BlockInfo,
    sender: Seq<u8>,
    msg: HandleMsg,
    owner: Seq<u8>,
    operator: Seq<u8>,
)
    requires
        handle_result(before, block, sender, msg) == Ok::<RegistryView, ContractError>(after),
        owner != sender || !(msg is ApproveAll || msg is RevokeAll),
    ensures
        after.operators.contains_key((owner, operator)) <==> before.operators.contains_key(
            (owner, operator),
        ),
        after.operators.contains_key((owner, operator)) ==> after.operators[(owner, operator)]
            == before.operators[(owner, operator)],
{
}

/// Every record stays sound: where every token has an owner and no spender
/// has two approvals for one token before a call, and the call names the one
/// to whom it gives a token, the same holds after the call.
pub proof fn lemma_records_stay_sound(
    before: RegistryView,
    after: RegistryView,
    block: BlockInfo,
    sender: Seq<u8>,
    msg: HandleMsg,
)
    requires
        forall|t: Seq<u8>| before.tokens.contains_key(t) ==> sound(#[trigger] before.tokens[t]),
        names_new_owner(msg),
        handle_result(before, block, sender, msg) == Ok::<RegistryView, ContractError>(after),
    ensures
        forall|t: Seq<u8>| after.tokens.contains_key(t) ==> sound(#[trigger] after.tokens[t]),
{
    assert forall|t: Seq<u8>| after.tokens.contains_key(t) implies sound(
        #[trigger] after.tokens[t],
    ) by {
        match msg {
            HandleMsg::Approve { spender, token_id, expires } => {
                if before.tokens.contains_key(t) {
                    assert(sound(before.tokens[t]));
                    lemma_one_approval_per_spender(
                        before.tokens[t].approvals,
                        spender.canonical@,
                        expiry_or_never(expires),
                    );
                }
            },
            HandleMsg::Revoke { spender, token_id } => {
                if before.tokens.contains_key(t) {
                    assert(sound(before.tokens[t]));
                    lemma_one_approval_per_spender(
                        before.tokens[t].approvals,
                        spender.canonical@,
                        Expiration::Never,
                    );
                }
            },
            _ => {
                if before.tokens.contains_key(t) {
                    assert(sound(before.tokens[t]));
                }
            },
        }
    }
}

} // verus!
