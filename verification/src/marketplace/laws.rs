//! What holds of the marketplace whatever the state and the call.

use crate::error::ContractError;
use crate::marketplace::contract::{
    buy_result, handle_result, listed, numbers_fit, sell_result, withdraw_result,
};
use crate::address::MessageInfo;
use crate::marketplace::msg::HandleMsg;
use crate::marketplace::msg::{BuyNft, SellNft};
use crate::marketplace::state::{next_offering_id, offering_key, MarketplaceView};
use crate::response::Payload;
use vstd::prelude::*;

verus! {

/// A token that was listed can be bought: a payment of the listed price or
/// more, with instructions that name the offering, closes the offering. After
/// that a second payment for it and a withdrawal of it are refused as not
/// found, whoever makes them and whatever is paid.
pub proof fn lemma_list_then_buy(
    before: MarketplaceView,
    listing: MarketplaceView,
    registry: Seq<u8>,
    seller: Seq<u8>,
    token_id: Seq<char>,
    sell: SellNft,
    buy: BuyNft,
    amount: u128,
    again: u128,
    anyone: Seq<u8>,
)
    requires
        before.offerings_count < u64::MAX,
        sell_result(before, registry, seller, token_id, Payload::Given(sell)) == Ok::<
            MarketplaceView,
            ContractError,
        >(listing),
        buy.offering_id@ == next_offering_id(before.offerings_count),
        amount >= sell.list_price.amount,
    ensures
        listing.offerings_count == before.offerings_count + 1,
        listing.offerings[offering_key(buy.offering_id@)] == listed(
            registry,
            seller,
            token_id,
            sell,
        ),
        ({
            let sold = MarketplaceView {
                offerings: listing.offerings.remove(offering_key(buy.offering_id@)),
                ..listing
            };
            &&& buy_result(listing, amount, Payload::Given(buy)) == Ok::<
                MarketplaceView,
                ContractError,
            >(sold)
            &&& !sold.offerings.contains_key(offering_key(buy.offering_id@))
            &&& buy_result(sold, again, Payload::Given(buy)) == Err::<
                MarketplaceView,
                ContractError,
            >(ContractError::NotFound)
            &&& withdraw_result(sold, anyone, offering_key(buy.offering_id@)) == Err::<
                MarketplaceView,
                ContractError,
            >(ContractError::NotFound)
        }),
{
}

/// A payment below the listed price is refused as insufficient, and since a
/// call that is refused leaves the state as it was, the offering stays open: a
/// payment of the price or more still buys it.
pub proof fn lemma_underpayment_keeps_offering(
    state: MarketplaceView,
    buy: BuyNft,
    too_little: u128,
    enough: u128,
)
    requires
        state.offerings.contains_key(offering_key(buy.offering_id@)),
        too_little < state.offerings[offering_key(buy.offering_id@)].price_amount,
        enough >= state.offerings[offering_key(buy.offering_id@)].price_amount,
    ensures
        buy_result(state, too_little, Payload::Given(buy)) == Err::<
            MarketplaceView,
            ContractError,
        >(ContractError::InsufficientFunds),
        buy_result(state, enough, Payload::Given(buy)) == Ok::<MarketplaceView, ContractError>(
            MarketplaceView {
                offerings: state.offerings.remove(offering_key(buy.offering_id@)),
                ..state
            },
        ),
{
}

/// Only the seller withdraws: anyone else is refused as unauthorized, and the
/// seller's withdrawal closes the offering, after which a payment for it and a
/// second withdrawal are refused as not found.
pub proof fn lemma_only_seller_withdraws(
    state: MarketplaceView,
    sender: Seq<u8>,
    offering: Seq<u8>,
    buy: BuyNft,
    amount: u128,
)
    requires
        state.offerings.contains_key(offering),
        offering_key(buy.offering_id@) == offering,
    ensures
        sender != state.offerings[offering].seller ==> withdraw_result(state, sender, offering)
            == Err::<MarketplaceView, ContractError>(ContractError::Unauthorized),
        sender == state.offerings[offering].seller ==> {
            let after = MarketplaceView { offerings: state.offerings.remove(offering), ..state };
            &&& withdraw_result(state, sender, offering) == Ok::<MarketplaceView, ContractError>(
                after,
            )
            &&& withdraw_result(after, sender, offering) == Err::<MarketplaceView, ContractError>(
                ContractError::NotFound,
            )
            &&& buy_result(after, amount, Payload::Given(buy)) == Err::<
                MarketplaceView,
                ContractError,
            >(ContractError::NotFound)
        },
{
}

/// An offering leaves the listing once and for good: buying and withdrawing
/// both close it, neither opens one, and only a listing adds an offering.
pub proof fn lemma_closing_is_final(
    state: MarketplaceView,
    after: MarketplaceView,
    sender: Seq<u8>,
    buy: BuyNft,
    amount: u128,
    offering: Seq<u8>,
    other: Seq<u8>,
)
    requires
        buy_result(state, amount, Payload::Given(buy)) == Ok::<MarketplaceView, ContractError>(
            after,
        ) || withdraw_result(state, sender, offering) == Ok::<MarketplaceView, ContractError>(
            after,
        ),
    ensures
        after.offerings.contains_key(other) ==> state.offerings.contains_key(other)
            && after.offerings[other] == state.offerings[other],
        after.offerings_count == state.offerings_count,
{
}

/// The count of offerings never goes down: it goes up by one with every
/// listing, and stays as it is with every other call.
pub proof fn lemma_count_only_rises(
    before: MarketplaceView,
    after: MarketplaceView,
    info: MessageInfo,
    msg: HandleMsg,
)
    requires
        numbers_fit(before, msg),
        handle_result(before, info, msg) == Ok::<MarketplaceView, ContractError>(after),
    ensures
        after.name == before.name,
        after.offerings_count >= before.offerings_count,
        after.offerings_count == before.offerings_count || after.offerings_count
            == before.offerings_count + 1,
{
}

} // verus!
