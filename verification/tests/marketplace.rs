use cosmons::address::{Address, Identity, MessageInfo};
use cosmons::cw20::coin::Cw20CoinHuman;
use cosmons::cw20::msg::Cw20HandleMsg;
use cosmons::cw20::receiver::Cw20ReceiveMsg;
use cosmons::error::ContractError;
use cosmons::expiration::{BlockInfo, Env};
use cosmons::marketplace::contract::{
    handle, init, query, query_offerings, query_offerings_page,
};
use cosmons::marketplace::msg::{
    BuyNft, HandleMsg, InitMsg, QueryMsg, ReceiveMsgWrapper, SellNft,
};
use cosmons::marketplace::package::{ContractInfoResponse, QueryOfferingsResult};
use cosmons::marketplace::state::{num_offerings, offerings, Marketplace, Offering};
use cosmons::response::{
    attr, Cw721HandleMsg, Cw721ReceiveMsg, ExecuteMsg, Instruction, Payload,
};
use cosmons::registry::contract as registry;
use cosmons::registry::msg as registry_msg;
use cosmwasm_std::testing::MockApi;
use cosmwasm_std::{Api, CanonicalAddr, HumanAddr};

fn canonical(name: &str) -> Vec<u8> {
    MockApi::default().canonical_address(&HumanAddr::from(name)).unwrap().as_slice().to_vec()
}

fn addr(name: &str) -> Address {
    Address { human: name.to_string(), canonical: canonical(name) }
}

fn mock_info(sender: &str) -> MessageInfo {
    MessageInfo { sender: addr(sender) }
}

fn mock_env() -> Env {
    let env = cosmwasm_std::testing::mock_env();
    Env { block: BlockInfo { height: env.block.height, time: env.block.time } }
}

fn price(amount: u128) -> Cw20CoinHuman {
    Cw20CoinHuman { address: "cw20ContractAddr".to_string(), amount }
}

fn list(state: &mut Marketplace, seller: &str, token_id: &str, amount: u128) -> String {
    let msg = HandleMsg::Receive(ReceiveMsgWrapper::Cw721Rcv(Cw721ReceiveMsg {
        sender: addr(seller),
        token_id: token_id.to_string(),
        msg: Payload::Given(SellNft { list_price: price(amount) }),
    }));
    handle(state, mock_env(), mock_info("registry"), msg).unwrap();
    num_offerings(state).to_string()
}

fn buy(offering_id: &str, buyer: &str, amount: u128) -> HandleMsg {
    HandleMsg::Receive(ReceiveMsgWrapper::Cw20Rcv(Cw20ReceiveMsg {
        sender: buyer.to_string(),
        amount,
        msg: Payload::Given(BuyNft { offering_id: offering_id.to_string() }),
    }))
}

#[test]
fn sell_offering_happy_path() {
    let msg = InitMsg { name: String::from("test market") };
    let (mut deps, _res) = init(msg);

    // beneficiary can release it
    let info = mock_info("anyone");

    let sell_msg = SellNft {
        list_price: Cw20CoinHuman { address: String::from("cw20ContractAddr"), amount: 5 },
    };

    let msg = HandleMsg::Receive(ReceiveMsgWrapper::Cw721Rcv(Cw721ReceiveMsg {
        sender: addr("seller"),
        token_id: String::from("SellableNFT"),
        msg: Payload::Given(sell_msg),
    }));
    let _res = handle(&mut deps, mock_env(), info, msg).unwrap();

    // Offering should be listed
    let value = query(&deps, mock_env(), QueryMsg::GetOfferings {});
    assert_eq!(1, value.offerings.len());

    let buy_msg = BuyNft { offering_id: value.offerings[0].id.clone() };

    let msg2 = HandleMsg::Receive(ReceiveMsgWrapper::Cw20Rcv(Cw20ReceiveMsg {
        sender: String::from("buyer"),
        amount: 5,
        msg: Payload::Given(buy_msg),
    }));

    let info_buy = mock_info("cw20ContractAddr");

    let _res = handle(&mut deps, mock_env(), info_buy, msg2).unwrap();

    // check offerings again. Should be 0
    let value2 = query(&deps, mock_env(), QueryMsg::GetOfferings {});
    assert_eq!(0, value2.offerings.len());
}

#[test]
fn withdraw_offering_happy_path() {
    let msg = InitMsg { name: String::from("test market") };
    let (mut deps, _res) = init(msg);

    // beneficiary can release it
    let info = mock_info("anyone");

    let sell_msg = SellNft {
        list_price: Cw20CoinHuman { address: String::from("cw20ContractAddr"), amount: 5 },
    };

    let msg = HandleMsg::Receive(ReceiveMsgWrapper::Cw721Rcv(Cw721ReceiveMsg {
        sender: addr("seller"),
        token_id: String::from("SellableNFT"),
        msg: Payload::Given(sell_msg),
    }));
    let _res = handle(&mut deps, mock_env(), info, msg).unwrap();

    // Offering should be listed
    let value = query(&deps, mock_env(), QueryMsg::GetOfferings {});
    assert_eq!(1, value.offerings.len());

    // withdraw offering
    let withdraw_info = mock_info("seller");
    let withdraw_msg = HandleMsg::WithdrawNft { offering_id: value.offerings[0].id.clone() };
    let _res = handle(&mut deps, mock_env(), withdraw_info, withdraw_msg).unwrap();

    // Offering should be removed
    let value2 = query(&deps, mock_env(), QueryMsg::GetOfferings {});
    assert_eq!(0, value2.offerings.len());
}

#[test]
fn listing_records_the_offering() {
    let (mut state, res) = init(InitMsg { name: "market".to_string() });
    assert_eq!(0, res.messages.len());
    assert_eq!("market", state.contract_info().name);

    let msg = HandleMsg::Receive(ReceiveMsgWrapper::Cw721Rcv(Cw721ReceiveMsg {
        sender: addr("seller"),
        token_id: "monster".to_string(),
        msg: Payload::Given(SellNft { list_price: price(1_000_000_000_000_000_000_000) }),
    }));
    let res = handle(&mut state, mock_env(), mock_info("registry"), msg).unwrap();
    assert_eq!(res.messages, vec![]);
    assert_eq!(
        res.attributes,
        vec![
            attr("action", "sell_nft"),
            attr("original_contract", "registry"),
            attr("seller", &CanonicalAddr::from(canonical("seller")).to_string()),
            attr("list_price", "1000000000000000000000 cw20ContractAddr"),
            attr("token_id", "monster"),
            attr("offering_id", "1"),
        ]
    );
    assert_eq!(48, res.attributes[2].value.len());
    assert!(res.attributes[2].value.chars().all(|c| "0123456789ABCDEF".contains(c)));

    assert_eq!(
        query_offerings(&state).offerings,
        vec![QueryOfferingsResult {
            id: "1".to_string(),
            token_id: "monster".to_string(),
            list_price: price(1_000_000_000_000_000_000_000),
            contract_addr: canonical("registry"),
            seller: canonical("seller"),
        }]
    );
    assert_eq!(1, num_offerings(&state));
}

#[test]
fn buying_pays_the_seller_and_delivers_the_token() {
    let (mut state, _) = init(InitMsg { name: "market".to_string() });
    let id = list(&mut state, "seller", "monster", 5);
    assert_eq!("1", id);

    let res = handle(&mut state, mock_env(), mock_info("ledger"), buy(&id, "buyer", 7)).unwrap();
    assert_eq!(
        res.messages,
        vec![
            Instruction {
                contract_addr: Identity::Human("ledger".to_string()),
                msg: ExecuteMsg::Cw20(Cw20HandleMsg::Transfer {
                    recipient: Identity::Canonical(canonical("seller")),
                    amount: 7,
                }),
            },
            Instruction {
                contract_addr: Identity::Canonical(canonical("registry")),
                msg: ExecuteMsg::Cw721(Cw721HandleMsg::TransferNft {
                    recipient: Identity::Human("buyer".to_string()),
                    token_id: "monster".to_string(),
                }),
            },
        ]
    );
    assert_eq!(
        res.attributes,
        vec![
            attr("action", "buy_nft"),
            attr("buyer", "buyer"),
            attr("seller", &CanonicalAddr::from(canonical("seller")).to_string()),
            attr("paid_price", "7 ledger"),
            attr("token_id", "monster"),
            attr("contract_addr", &CanonicalAddr::from(canonical("registry")).to_string()),
        ]
    );
    assert_eq!(res.data, None);
    assert_eq!(0, query_offerings(&state).offerings.len());

    // the offering is gone for good
    let err = handle(&mut state, mock_env(), mock_info("ledger"), buy(&id, "buyer", 7)).unwrap_err();
    assert_eq!(err, ContractError::NotFound);
    let withdraw = HandleMsg::WithdrawNft { offering_id: id.clone() };
    let err = handle(&mut state, mock_env(), mock_info("seller"), withdraw).unwrap_err();
    assert_eq!(err, ContractError::NotFound);
    // and the count of offerings made does not go back
    assert_eq!(1, num_offerings(&state));
    assert_eq!("2", list(&mut state, "seller", "monster", 5));
}

#[test]
fn underpaying_leaves_the_offering_open() {
    let (mut state, _) = init(InitMsg { name: "market".to_string() });
    let id = list(&mut state, "seller", "monster", 5);
    let before = query_offerings(&state);

    let err = handle(&mut state, mock_env(), mock_info("ledger"), buy(&id, "buyer", 4)).unwrap_err();
    assert_eq!(err, ContractError::InsufficientFunds);
    assert_eq!("Insufficient funds", err.message());
    assert_eq!(before, query_offerings(&state));

    // what is paid at the price exactly buys it
    handle(&mut state, mock_env(), mock_info("ledger"), buy(&id, "buyer", 5)).unwrap();
    assert_eq!(0, query_offerings(&state).offerings.len());
}

#[test]
fn only_the_seller_withdraws() {
    let (mut state, _) = init(InitMsg { name: "market".to_string() });
    let id = list(&mut state, "seller", "monster", 5);

    let withdraw = HandleMsg::WithdrawNft { offering_id: id.clone() };
    let err = handle(&mut state, mock_env(), mock_info("thief"), withdraw.clone()).unwrap_err();
    assert_eq!(err, ContractError::Unauthorized);
    assert_eq!(1, query_offerings(&state).offerings.len());

    let res = handle(&mut state, mock_env(), mock_info("seller"), withdraw.clone()).unwrap();
    assert_eq!(
        res.messages,
        vec![Instruction {
            contract_addr: Identity::Canonical(canonical("registry")),
            msg: ExecuteMsg::Cw721(Cw721HandleMsg::TransferNft {
                recipient: Identity::Canonical(canonical("seller")),
                token_id: "monster".to_string(),
            }),
        }]
    );
    assert_eq!(
        res.attributes,
        vec![attr("action", "withdraw_nft"), attr("seller", "seller"), attr("offering_id", "1")]
    );
    assert_eq!(0, query_offerings(&state).offerings.len());

    let err = handle(&mut state, mock_env(), mock_info("seller"), withdraw).unwrap_err();
    assert_eq!(err, ContractError::NotFound);
    let err = handle(&mut state, mock_env(), mock_info("ledger"), buy(&id, "buyer", 5)).unwrap_err();
    assert_eq!(err, ContractError::NotFound);
}

#[test]
fn receive_without_instructions_is_refused() {
    let (mut state, _) = init(InitMsg { name: "market".to_string() });
    let id = list(&mut state, "seller", "monster", 5);
    let before = query_offerings(&state);

    for (payload, expected) in [
        (Payload::Absent, ContractError::NoData),
        (Payload::Unreadable, ContractError::InvalidPayload),
    ] {
        let msg = HandleMsg::Receive(ReceiveMsgWrapper::Cw20Rcv(Cw20ReceiveMsg {
            sender: "buyer".to_string(),
            amount: 100,
            msg: payload,
        }));
        let err = handle(&mut state, mock_env(), mock_info("ledger"), msg).unwrap_err();
        assert_eq!(err, expected);
    }
    for (payload, expected) in [
        (Payload::Absent, ContractError::NoData),
        (Payload::Unreadable, ContractError::InvalidPayload),
    ] {
        let msg = HandleMsg::Receive(ReceiveMsgWrapper::Cw721Rcv(Cw721ReceiveMsg {
            sender: addr("seller"),
            token_id: "other".to_string(),
            msg: payload,
        }));
        let err = handle(&mut state, mock_env(), mock_info("registry"), msg).unwrap_err();
        assert_eq!(err, expected);
    }
    assert_eq!(before, query_offerings(&state));
    assert_eq!(1, num_offerings(&state));
    assert_eq!("1", id);
}

#[test]
fn offerings_are_listed_by_identifier() {
    let (mut state, _) = init(InitMsg { name: "market".to_string() });
    for i in 0..12u128 {
        list(&mut state, "seller", &format!("monster{}", i), i + 1);
    }
    let ids: Vec<String> = query_offerings(&state).offerings.iter().map(|o| o.id.clone()).collect();
    assert_eq!(ids, vec!["1", "10", "11", "12", "2", "3", "4", "5", "6", "7", "8", "9"]);
    let tenth = &query_offerings(&state).offerings[1];
    assert_eq!(tenth.token_id, "monster9");
    assert_eq!(tenth.list_price.amount, 10);

    // the listing can be paged through, like those of the registry
    let mut seen: Vec<String> = Vec::new();
    let mut cursor: Option<String> = None;
    for size in [Some(5), None, Some(40)] {
        let page = query_offerings_page(&state, cursor.clone(), size).offerings;
        if let Some(last) = page.last() {
            cursor = Some(last.id.clone());
        }
        seen.extend(page.into_iter().map(|o| o.id));
    }
    assert_eq!(seen, ids);
    let page = query_offerings_page(&state, Some("12".to_string()), Some(2)).offerings;
    assert_eq!(page[0], query_offerings(&state).offerings[4]);
    assert_eq!(page[1].id, "3");
    assert_eq!(12, offerings(&state).len());

    // an identifier is matched letter for letter
    let err = handle(&mut state, mock_env(), mock_info("ledger"), buy("01", "buyer", 50)).unwrap_err();
    assert_eq!(err, ContractError::NotFound);
    handle(&mut state, mock_env(), mock_info("ledger"), buy("10", "buyer", 50)).unwrap();
    assert_eq!(11, query_offerings(&state).offerings.len());
}

#[test]
fn restored_marketplace_counts_on() {
    let info = ContractInfoResponse { name: "market".to_string() };
    let mut state = Marketplace::restore(info, 41);
    let old = Offering {
        token_id: "old".to_string(),
        contract_addr: canonical("registry"),
        seller: canonical("seller"),
        list_price: price(3),
    };
    // only identifiers that were given out can come back
    for id in ["0", "42", "017", "+17", "17 ", "", "1e1", "١٧", "18446744073709551616"] {
        assert!(!state.restore_offering(id.to_string(), old.clone()), "{}", id);
    }
    assert_eq!(0, state.len());
    assert!(state.restore_offering("17".to_string(), old.clone()));
    assert!(state.restore_offering("41".to_string(), old.clone()));
    assert!(state.restore_offering("1".to_string(), old));
    assert_eq!(3, state.len());
    assert_eq!("17", state.id_at(1));
    assert_eq!("old", state.offering_at(1).token_id);
    assert_eq!("42", list(&mut state, "seller", "new", 4));
    let ids: Vec<String> = query_offerings(&state).offerings.iter().map(|o| o.id.clone()).collect();
    assert_eq!(ids, vec!["1", "17", "41", "42"]);
}

#[test]
fn canonical_identities_show_in_upper_case_hex() {
    let (mut state, _) = init(InitMsg { name: "market".to_string() });
    let seller = Address { human: "x".to_string(), canonical: vec![0x00, 0xab, 0x1f, 0xff, 0x09] };
    let msg = HandleMsg::Receive(ReceiveMsgWrapper::Cw721Rcv(Cw721ReceiveMsg {
        sender: seller,
        token_id: "monster".to_string(),
        msg: Payload::Given(SellNft { list_price: price(0) }),
    }));
    let registry = MessageInfo {
        sender: Address { human: "registry".to_string(), canonical: vec![] },
    };
    let res = handle(&mut state, mock_env(), registry, msg).unwrap();
    assert_eq!(res.attributes[2], attr("seller", "00AB1FFF09"));
    assert_eq!(res.attributes[3], attr("list_price", "0 cw20ContractAddr"));

    let res = handle(&mut state, mock_env(), mock_info("ledger"), buy("1", "buyer", 0)).unwrap();
    assert_eq!(res.attributes[2], attr("seller", "00AB1FFF09"));
    assert_eq!(res.attributes[5], attr("contract_addr", ""));
}

#[test]
fn a_token_goes_through_the_marketplace_to_its_buyer() {
    // a registry with one token of alice
    let (mut tokens, _) = registry::init(registry_msg::InitMsg {
        name: "Monsters".to_string(),
        symbol: "MON".to_string(),
        minter: addr("minter"),
    });
    let mint = registry_msg::HandleMsg::Mint(registry_msg::MintMsg {
        token_id: "dragon".to_string(),
        owner: addr("alice"),
        name: "Dragon".to_string(),
        level: 1,
        description: None,
        image: None,
    });
    registry::handle(&mut tokens, mock_env(), mock_info("minter"), mint).unwrap();
    let (mut market, _) = init(InitMsg { name: "market".to_string() });

    // alice sends the token to the marketplace, with the price
    let send = registry_msg::HandleMsg::SendNft {
        contract: addr("market"),
        token_id: "dragon".to_string(),
        msg: Some(b"price".to_vec()),
    };
    let sent = registry::handle(&mut tokens, mock_env(), mock_info("alice"), send).unwrap();
    let notice = match &sent.messages[..] {
        [Instruction { contract_addr: Identity::Human(to), msg: ExecuteMsg::ReceiveNft(notice) }] => {
            assert_eq!(to, "market");
            notice.clone()
        }
        m => panic!("unexpected instructions: {:?}", m),
    };
    assert_eq!(notice.msg, Payload::Given(b"price".to_vec()));

    // the host hands the notice to the marketplace, which lists the token
    let listing = HandleMsg::Receive(ReceiveMsgWrapper::Cw721Rcv(Cw721ReceiveMsg {
        sender: notice.sender,
        token_id: notice.token_id,
        msg: Payload::Given(SellNft { list_price: price(10) }),
    }));
    handle(&mut market, mock_env(), mock_info("registry"), listing).unwrap();

    // while the token is listed alice can no longer move it
    let back = registry_msg::HandleMsg::TransferNft {
        recipient: addr("alice"),
        token_id: "dragon".to_string(),
    };
    let err = registry::handle(&mut tokens, mock_env(), mock_info("alice"), back).unwrap_err();
    assert_eq!(err, ContractError::Unauthorized);

    // bob pays; the marketplace has the registry hand the token to bob
    let bought = handle(&mut market, mock_env(), mock_info("ledger"), buy("1", "bob", 10)).unwrap();
    let (recipient, token_id) = match &bought.messages[1].msg {
        ExecuteMsg::Cw721(Cw721HandleMsg::TransferNft {
            recipient: Identity::Human(recipient),
            token_id,
        }) => (recipient.clone(), token_id.clone()),
        m => panic!("unexpected instruction: {:?}", m),
    };
    let deliver = registry_msg::HandleMsg::TransferNft { recipient: addr(&recipient), token_id };
    registry::handle(&mut tokens, mock_env(), mock_info("market"), deliver).unwrap();

    let owner = registry::query_owner_of(&tokens, mock_env(), "dragon".to_string(), true).unwrap();
    assert_eq!(owner.owner, canonical("bob"));
    assert_eq!(0, query_offerings(&market).offerings.len());
}
