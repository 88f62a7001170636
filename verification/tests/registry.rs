use cosmons::address::{Address, Identity, MessageInfo};
use cosmons::error::ContractError;
use cosmons::expiration::{BlockInfo, Env, Expiration};
use cosmons::registry::contract::{
    check_can_approve, check_can_send, handle, init, query, query_all_approvals,
    query_all_nft_info, query_all_tokens, query_contract_info, query_minter, query_nft_info,
    query_num_tokens, query_owner_of, query_tokens, shown_approvals,
};
use cosmons::registry::msg::{HandleMsg, InitMsg, MintMsg, QueryMsg};
use cosmons::registry::package::{
    AllNftInfoResponse, ApprovedForAllResponse, MinterResponse, NftInfoResponse,
    NumTokensResponse, OwnerOfResponse, QueryResponse, TokensResponse,
};
use cosmons::registry::state::{
    has_distinct_spenders, increment_tokens, num_tokens, tokens, Approval, ContractInfoResponse,
    Registry, TokenInfo, TokenMap,
};
use cosmons::response::{
    attr, Cw721ReceiveMsg, ExecuteMsg, HandleResponse, Instruction, Payload,
};
use cosmwasm_std::testing::MockApi;
use cosmwasm_std::{to_binary, Api, CanonicalAddr, CosmosMsg, HumanAddr, WasmMsg};

const MINTER: &str = "merlin";
const CONTRACT_NAME: &str = "Magic Power";
const SYMBOL: &str = "MGK";

fn canonical(name: &str) -> Vec<u8> {
    MockApi::default().canonical_address(&HumanAddr::from(name)).unwrap().as_slice().to_vec()
}

fn human(canonical: &[u8]) -> String {
    MockApi::default().human_address(&CanonicalAddr::from(canonical)).unwrap().to_string()
}

fn addr(name: &str) -> Address {
    Address { human: name.to_string(), canonical: canonical(name) }
}

fn mock_info(sender: &str) -> MessageInfo {
    MessageInfo { sender: addr(sender) }
}

fn mock_env() -> Env {
    let env = cosmwasm_std::testing::mock_env();
    Env { block: BlockInfo { height: env.block.height, time: env.block.time } }
}

fn setup_contract() -> Registry {
    let msg = InitMsg {
        name: CONTRACT_NAME.to_string(),
        symbol: SYMBOL.to_string(),
        minter: addr(MINTER),
    };
    let (state, res) = init(msg);
    assert_eq!(0, res.messages.len());
    state
}

fn mint(state: &mut Registry, token_id: &str, owner: &str) {
    let msg = HandleMsg::Mint(MintMsg {
        token_id: token_id.to_string(),
        owner: addr(owner),
        name: format!("name of {}", token_id),
        level: 1,
        description: None,
        image: None,
    });
    handle(state, mock_env(), mock_info(MINTER), msg).unwrap();
}

#[test]
fn proper_initialization() {
    let msg = InitMsg {
        name: CONTRACT_NAME.to_string(),
        symbol: SYMBOL.to_string(),
        minter: addr(MINTER),
    };

    let (deps, res) = init(msg);
    assert_eq!(0, res.messages.len());

    // it worked, let's query the state
    let res = query_minter(&deps);
    assert_eq!(MINTER, human(&res.minter).as_str());
    let info = query_contract_info(&deps);
    assert_eq!(
        info,
        ContractInfoResponse { name: CONTRACT_NAME.to_string(), symbol: SYMBOL.to_string() }
    );

    let count = query_num_tokens(&deps);
    assert_eq!(0, count.count);

    // list the token_ids
    let tokens = query_all_tokens(&deps, None, None);
    assert_eq!(0, tokens.tokens.len());
}

#[test]
fn minting() {
    let mut deps = setup_contract();

    let token_id = "petrify".to_string();
    let name = "Petrify with Gaze".to_string();
    let description = "Allows the owner to petrify anyone looking at him or her".to_string();

    let mint_msg = HandleMsg::Mint(MintMsg {
        token_id: token_id.clone(),
        owner: addr("medusa"),
        name: name.clone(),
        level: 1,
        description: Some(description.clone()),
        image: None,
    });

    // random cannot mint
    let random = mock_info("random");
    let err = handle(&mut deps, mock_env(), random, mint_msg.clone()).unwrap_err();
    match err {
        ContractError::Unauthorized {} => {}
        e => panic!("unexpected error: {}", e.message()),
    }

    // minter can mint
    let allowed = mock_info(MINTER);
    let _ = handle(&mut deps, mock_env(), allowed, mint_msg.clone()).unwrap();

    // ensure num tokens increases
    let count = query_num_tokens(&deps);
    assert_eq!(1, count.count);

    // unknown nft returns error
    let _ = query_nft_info(&deps, "unknown".to_string()).unwrap_err();

    // this nft info is correct
    let info = query_nft_info(&deps, token_id.clone()).unwrap();
    assert_eq!(
        info,
        NftInfoResponse {
            name: name.clone(),
            level: info.level,
            description: description.clone(),
            image: None,
        }
    );

    // owner info is correct
    let owner = query_owner_of(&deps, mock_env(), token_id.clone(), true).unwrap();
    assert_eq!(owner, OwnerOfResponse { owner: canonical("medusa"), approvals: vec![] });
    assert_eq!("medusa", human(&owner.owner).as_str());

    // Cannot mint same token_id again
    let mint_msg2 = HandleMsg::Mint(MintMsg {
        token_id: token_id.clone(),
        owner: addr("hercules"),
        name: "copy cat".into(),
        level: 1,
        description: None,
        image: None,
    });

    let allowed = mock_info(MINTER);
    let err = handle(&mut deps, mock_env(), allowed, mint_msg2).unwrap_err();
    match err {
        ContractError::Claimed {} => {}
        e => panic!("unexpected error: {}", e.message()),
    }

    // list the token_ids
    let tokens = query_all_tokens(&deps, None, None);
    assert_eq!(1, tokens.tokens.len());
    assert_eq!(vec![token_id], tokens.tokens);
}

#[test]
fn transferring_nft() {
    let mut deps = setup_contract();

    // Mint a token
    let token_id = "melt".to_string();
    let name = "Melting power".to_string();
    let description = "Allows the owner to melt anyone looking at him or her".to_string();

    let mint_msg = HandleMsg::Mint(MintMsg {
        token_id: token_id.clone(),
        owner: addr("venus"),
        name: name.clone(),
        level: 1,
        description: Some(description.clone()),
        image: None,
    });

    let minter = mock_info(MINTER);
    handle(&mut deps, mock_env(), minter, mint_msg).unwrap();

    // random cannot transfer
    let random = mock_info("random");
    let transfer_msg =
        HandleMsg::TransferNft { recipient: addr("random"), token_id: token_id.clone() };

    let err = handle(&mut deps, mock_env(), random, transfer_msg.clone()).unwrap_err();

    match err {
        ContractError::Unauthorized {} => {}
        e => panic!("unexpected error: {}", e.message()),
    }

    // owner can
    let random = mock_info("venus");
    let transfer_msg =
        HandleMsg::TransferNft { recipient: addr("random"), token_id: token_id.clone() };

    let res = handle(&mut deps, mock_env(), random, transfer_msg.clone()).unwrap();

    assert_eq!(
        res,
        HandleResponse {
            messages: vec![],
            attributes: vec![
                attr("action", "transfer_nft"),
                attr("sender", "venus"),
                attr("recipient", "random"),
                attr("token_id", &token_id),
            ],
            data: None,
        }
    );
}

#[test]
fn sending_nft() {
    let mut deps = setup_contract();

    // Mint a token
    let token_id = "melt".to_string();
    let name = "Melting power".to_string();
    let description = "Allows the owner to melt anyone looking at him or her".to_string();

    let mint_msg = HandleMsg::Mint(MintMsg {
        token_id: token_id.clone(),
        owner: addr("venus"),
        name: name.clone(),
        level: 1,
        description: Some(description.clone()),
        image: None,
    });

    let minter = mock_info(MINTER);
    handle(&mut deps, mock_env(), minter, mint_msg).unwrap();

    let msg = to_binary("You now have the melting power").unwrap().as_slice().to_vec();
    let target = addr("another_contract");
    let send_msg = HandleMsg::SendNft {
        contract: target.clone(),
        token_id: token_id.clone(),
        msg: Some(msg.clone()),
    };

    let random = mock_info("random");
    let err = handle(&mut deps, mock_env(), random, send_msg.clone()).unwrap_err();
    match err {
        ContractError::Unauthorized {} => {}
        e => panic!("unexpected error: {}", e.message()),
    }

    // but owner can
    let random = mock_info("venus");
    let res = handle(&mut deps, mock_env(), random, send_msg).unwrap();

    let payload = Cw721ReceiveMsg {
        sender: addr("venus"),
        token_id: token_id.clone(),
        msg: Payload::Given(msg),
    };
    let expected = Instruction {
        contract_addr: Identity::Human(target.human.clone()),
        msg: ExecuteMsg::ReceiveNft(payload),
    };
    // ensure expected names the contract as we think it should
    match &expected.contract_addr {
        Identity::Human(contract_addr) => {
            assert_eq!(contract_addr, &target.human)
        }
        m => panic!("Unexpected message type: {:?}", m),
    }
    // and make sure this is the request sent by the contract
    assert_eq!(
        res,
        HandleResponse {
            messages: vec![expected],
            attributes: vec![
                attr("action", "send_nft"),
                attr("sender", "venus"),
                attr("recipient", "another_contract"),
                attr("token_id", &token_id),
            ],
            data: None,
        }
    );
}

#[test]
fn approving_revoking() {
    let mut deps = setup_contract();

    // Mint a token
    let token_id = "grow".to_string();
    let name = "Growing power".to_string();
    let description = "Allows the owner to grow anything".to_string();

    let mint_msg = HandleMsg::Mint(MintMsg {
        token_id: token_id.clone(),
        owner: addr("demeter"),
        name: name.clone(),
        level: 1,
        description: Some(description.clone()),
        image: None,
    });

    let minter = mock_info(MINTER);
    handle(&mut deps, mock_env(), minter, mint_msg).unwrap();

    // Give random transferring power
    let approve_msg =
        HandleMsg::Approve { spender: addr("random"), token_id: token_id.clone(), expires: None };
    let owner = mock_info("demeter");
    let res = handle(&mut deps, mock_env(), owner, approve_msg).unwrap();
    assert_eq!(
        res,
        HandleResponse {
            messages: vec![],
            attributes: vec![
                attr("action", "approve"),
                attr("sender", "demeter"),
                attr("spender", "random"),
                attr("token_id", &token_id),
            ],
            data: None,
        }
    );

    // random can now transfer
    let random = mock_info("random");
    let transfer_msg =
        HandleMsg::TransferNft { recipient: addr("person"), token_id: token_id.clone() };
    handle(&mut deps, mock_env(), random, transfer_msg).unwrap();

    // Approvals are removed / cleared
    let query_msg = QueryMsg::OwnerOf { token_id: token_id.clone(), include_expired: None };
    let res = match query(&deps, mock_env(), query_msg.clone()).unwrap() {
        QueryResponse::OwnerOf(res) => res,
        r => panic!("unexpected answer: {:?}", r),
    };
    assert_eq!(res, OwnerOfResponse { owner: canonical("person"), approvals: vec![] });

    // Approve, revoke, and check for empty, to test revoke
    let approve_msg =
        HandleMsg::Approve { spender: addr("random"), token_id: token_id.clone(), expires: None };
    let owner = mock_info("person");
    handle(&mut deps, mock_env(), owner.clone(), approve_msg).unwrap();

    let revoke_msg = HandleMsg::Revoke { spender: addr("random"), token_id: token_id.clone() };
    handle(&mut deps, mock_env(), owner, revoke_msg).unwrap();

    // Approvals are now removed / cleared
    let res = match query(&deps, mock_env(), query_msg).unwrap() {
        QueryResponse::OwnerOf(res) => res,
        r => panic!("unexpected answer: {:?}", r),
    };
    assert_eq!(res, OwnerOfResponse { owner: canonical("person"), approvals: vec![] });
}

#[test]
fn approving_all_revoking_all() {
    let mut deps = setup_contract();

    // Mint a couple tokens (from the same owner)
    let token_id1 = "grow1".to_string();
    let name1 = "Growing power".to_string();
    let description1 = "Allows the owner the power to grow anything".to_string();
    let token_id2 = "grow2".to_string();
    let name2 = "More growing power".to_string();
    let description2 = "Allows the owner the power to grow anything even faster".to_string();

    let mint_msg1 = HandleMsg::Mint(MintMsg {
        token_id: token_id1.clone(),
        owner: addr("demeter"),
        name: name1.clone(),
        level: 1,
        description: Some(description1.clone()),
        image: None,
    });

    let minter = mock_info(MINTER);
    handle(&mut deps, mock_env(), minter.clone(), mint_msg1).unwrap();

    let mint_msg2 = HandleMsg::Mint(MintMsg {
        token_id: token_id2.clone(),
        owner: addr("demeter"),
        name: name2.clone(),
        level: 1,
        description: Some(description2.clone()),
        image: None,
    });

    handle(&mut deps, mock_env(), minter, mint_msg2).unwrap();

    // paginate the token_ids
    let tokens = query_all_tokens(&deps, None, Some(1));
    assert_eq!(1, tokens.tokens.len());
    assert_eq!(vec![token_id1.clone()], tokens.tokens);
    let tokens = query_all_tokens(&deps, Some(token_id1.clone()), Some(3));
    assert_eq!(1, tokens.tokens.len());
    assert_eq!(vec![token_id2.clone()], tokens.tokens);

    // demeter gives random full (operator) power over her tokens
    let approve_all_msg = HandleMsg::ApproveAll { operator: addr("random"), expires: None };
    let owner = mock_info("demeter");
    let res = handle(&mut deps, mock_env(), owner, approve_all_msg).unwrap();
    assert_eq!(
        res,
        HandleResponse {
            messages: vec![],
            attributes: vec![
                attr("action", "approve_all"),
                attr("sender", "demeter"),
                attr("operator", "random"),
            ],
            data: None,
        }
    );

    // random can now transfer
    let random = mock_info("random");
    let transfer_msg =
        HandleMsg::TransferNft { recipient: addr("person"), token_id: token_id1.clone() };
    handle(&mut deps, mock_env(), random.clone(), transfer_msg).unwrap();

    // random can now send
    let inner_msg = WasmMsg::Execute {
        contract_addr: "another_contract".into(),
        msg: to_binary("You now also have the growing power").unwrap(),
        send: vec![],
    };
    let msg: CosmosMsg = CosmosMsg::Wasm(inner_msg);

    let send_msg = HandleMsg::SendNft {
        contract: addr("another_contract"),
        token_id: token_id2.clone(),
        msg: Some(to_binary(&msg).unwrap().as_slice().to_vec()),
    };
    handle(&mut deps, mock_env(), random, send_msg).unwrap();

    // Approve_all, revoke_all, and check for empty, to test revoke_all
    let approve_all_msg = HandleMsg::ApproveAll { operator: addr("operator"), expires: None };
    // person is now the owner of the tokens
    let owner = mock_info("person");
    handle(&mut deps, mock_env(), owner.clone(), approve_all_msg).unwrap();

    let res = query_all_approvals(&deps, mock_env(), addr("person"), true, None, None);
    assert_eq!(
        res,
        ApprovedForAllResponse {
            operators: vec![Approval {
                spender: canonical("operator"),
                expires: Expiration::Never {}
            }]
        }
    );

    // second approval
    let buddy_expires = Expiration::AtHeight(1234567);
    let approve_all_msg =
        HandleMsg::ApproveAll { operator: addr("buddy"), expires: Some(buddy_expires) };
    let owner = mock_info("person");
    handle(&mut deps, mock_env(), owner.clone(), approve_all_msg).unwrap();

    // and paginate queries
    let res = query_all_approvals(&deps, mock_env(), addr("person"), true, None, Some(1));
    assert_eq!(
        res,
        ApprovedForAllResponse {
            operators: vec![Approval { spender: canonical("buddy"), expires: buddy_expires }]
        }
    );
    let res = query_all_approvals(
        &deps,
        mock_env(),
        addr("person"),
        true,
        Some(addr("buddy")),
        Some(2),
    );
    assert_eq!(
        res,
        ApprovedForAllResponse {
            operators: vec![Approval {
                spender: canonical("operator"),
                expires: Expiration::Never {}
            }]
        }
    );

    let revoke_all_msg = HandleMsg::RevokeAll { operator: addr("operator") };
    handle(&mut deps, mock_env(), owner, revoke_all_msg).unwrap();

    // Approvals are removed / cleared without affecting others
    let res = query_all_approvals(&deps, mock_env(), addr("person"), false, None, None);
    assert_eq!(
        res,
        ApprovedForAllResponse {
            operators: vec![Approval { spender: canonical("buddy"), expires: buddy_expires }]
        }
    );

    // ensure the filter works (nothing should be here
    let mut late_env = mock_env();
    late_env.block.height = 1234568; //expired
    let res = query_all_approvals(&deps, late_env, addr("person"), false, None, None);
    assert_eq!(0, res.operators.len());
}

#[test]
fn query_tokens_by_owner() {
    let mut deps = setup_contract();
    let minter = mock_info(MINTER);

    // Mint a couple tokens (from the same owner)
    let token_id1 = "grow1".to_string();
    let demeter = addr("Demeter");
    let token_id2 = "grow2".to_string();
    let ceres = addr("Ceres");
    let token_id3 = "sing".to_string();

    let mint_msg = HandleMsg::Mint(MintMsg {
        token_id: token_id1.clone(),
        owner: demeter.clone(),
        name: "Growing power".to_string(),
        level: 1,
        description: Some("Allows the owner the power to grow anything".to_string()),
        image: None,
    });
    handle(&mut deps, mock_env(), minter.clone(), mint_msg).unwrap();

    let mint_msg = HandleMsg::Mint(MintMsg {
        token_id: token_id2.clone(),
        owner: ceres.clone(),
        name: "More growing power".to_string(),
        level: 1,
        description: Some("Allows the owner the power to grow anything even faster".to_string()),
        image: None,
    });
    handle(&mut deps, mock_env(), minter.clone(), mint_msg).unwrap();

    let mint_msg = HandleMsg::Mint(MintMsg {
        token_id: token_id3.clone(),
        owner: demeter.clone(),
        name: "Sing a lullaby".to_string(),
        level: 1,
        description: Some("Calm even the most excited children".to_string()),
        image: None,
    });
    handle(&mut deps, mock_env(), minter.clone(), mint_msg).unwrap();

    // get all tokens in order:
    let expected = vec![token_id1.clone(), token_id2.clone(), token_id3.clone()];
    let tokens = query_all_tokens(&deps, None, None);
    assert_eq!(&expected, &tokens.tokens);
    // paginate
    let tokens = query_all_tokens(&deps, None, Some(2));
    assert_eq!(&expected[..2], &tokens.tokens[..]);
    let tokens = query_all_tokens(&deps, Some(expected[1].clone()), None);
    assert_eq!(&expected[2..], &tokens.tokens[..]);

    // get by owner
    let by_ceres = vec![token_id2.clone()];
    let by_demeter = vec![token_id1.clone(), token_id3.clone()];
    // all tokens by owner
    let tokens = query_tokens(&deps, demeter.clone(), None, None);
    assert_eq!(&by_demeter, &tokens.tokens);
    let tokens = query_tokens(&deps, ceres.clone(), None, None);
    assert_eq!(&by_ceres, &tokens.tokens);

    // paginate for demeter
    let tokens = query_tokens(&deps, demeter.clone(), None, Some(1));
    assert_eq!(&by_demeter[..1], &tokens.tokens[..]);
    let tokens = query_tokens(&deps, demeter.clone(), Some(by_demeter[0].clone()), Some(3));
    assert_eq!(&by_demeter[1..], &tokens.tokens[..]);
}

#[test]
fn approved_spender_transfers_and_approvals_are_cleared() {
    let mut state = setup_contract();
    mint(&mut state, "t1", "alice");

    let approve =
        HandleMsg::Approve { spender: addr("bob"), token_id: "t1".to_string(), expires: None };
    handle(&mut state, mock_env(), mock_info("alice"), approve).unwrap();
    let shown = query_owner_of(&state, mock_env(), "t1".to_string(), false).unwrap();
    assert_eq!(
        shown.approvals,
        vec![Approval { spender: canonical("bob"), expires: Expiration::Never }]
    );

    let transfer = HandleMsg::TransferNft { recipient: addr("carol"), token_id: "t1".to_string() };
    handle(&mut state, mock_env(), mock_info("bob"), transfer).unwrap();

    let shown = query_owner_of(&state, mock_env(), "t1".to_string(), true).unwrap();
    assert_eq!(shown, OwnerOfResponse { owner: canonical("carol"), approvals: vec![] });
    assert_eq!("carol", human(&shown.owner).as_str());
}

#[test]
fn transfer_moves_token_in_owner_index() {
    let mut state = setup_contract();
    mint(&mut state, "a", "alice");
    mint(&mut state, "b", "alice");
    mint(&mut state, "c", "carol");

    let transfer = HandleMsg::TransferNft { recipient: addr("carol"), token_id: "a".to_string() };
    handle(&mut state, mock_env(), mock_info("alice"), transfer).unwrap();

    let alice = query_tokens(&state, addr("alice"), None, None);
    assert_eq!(alice.tokens, vec!["b".to_string()]);
    let carol = query_tokens(&state, addr("carol"), None, None);
    assert_eq!(carol.tokens, vec!["a".to_string(), "c".to_string()]);
    // the supply counts mints, not owners
    assert_eq!(3, query_num_tokens(&state).count);
}

#[test]
fn transfer_of_unknown_token_is_not_found() {
    let mut state = setup_contract();
    let transfer =
        HandleMsg::TransferNft { recipient: addr("carol"), token_id: "nothing".to_string() };
    let err = handle(&mut state, mock_env(), mock_info("alice"), transfer).unwrap_err();
    assert_eq!(err, ContractError::NotFound);
    assert_eq!("not found", err.message());
}

#[test]
fn minting_twice_counts_once() {
    let mut state = setup_contract();
    mint(&mut state, "twice", "alice");
    let again = HandleMsg::Mint(MintMsg {
        token_id: "twice".to_string(),
        owner: addr("bob"),
        name: "second".to_string(),
        level: 9,
        description: None,
        image: Some("https://example.org/second.png".to_string()),
    });
    let err = handle(&mut state, mock_env(), mock_info(MINTER), again).unwrap_err();
    assert_eq!(err, ContractError::Claimed);
    assert_eq!(1, query_num_tokens(&state).count);
    let shown = query_owner_of(&state, mock_env(), "twice".to_string(), true).unwrap();
    assert_eq!(shown.owner, canonical("alice"));
    let info = query_nft_info(&state, "twice".to_string()).unwrap();
    assert_eq!(info.name, "name of twice");
    assert_eq!(info.description, "");
}

#[test]
fn expired_approval_is_rejected() {
    let mut state = setup_contract();
    mint(&mut state, "t", "alice");
    let env = mock_env();

    for expires in [
        Expiration::AtHeight(env.block.height),
        Expiration::AtHeight(env.block.height - 1),
        Expiration::AtTime(env.block.time),
        Expiration::AtTime(0),
    ] {
        let approve = HandleMsg::Approve {
            spender: addr("bob"),
            token_id: "t".to_string(),
            expires: Some(expires),
        };
        let err = handle(&mut state, env, mock_info("alice"), approve).unwrap_err();
        assert_eq!(err, ContractError::Expired);
        let all = HandleMsg::ApproveAll { operator: addr("bob"), expires: Some(expires) };
        let err = handle(&mut state, env, mock_info("alice"), all).unwrap_err();
        assert_eq!(err, ContractError::Expired);
    }
    let shown = query_owner_of(&state, env, "t".to_string(), true).unwrap();
    assert_eq!(shown.approvals, vec![]);
    let operators = query_all_approvals(&state, env, addr("alice"), true, None, None);
    assert_eq!(operators.operators, vec![]);

    // one block later than now is not expired yet
    let approve = HandleMsg::Approve {
        spender: addr("bob"),
        token_id: "t".to_string(),
        expires: Some(Expiration::AtHeight(env.block.height + 1)),
    };
    handle(&mut state, env, mock_info("alice"), approve).unwrap();
}

#[test]
fn approval_holds_until_the_block_of_its_expiry() {
    let env = mock_env();
    let at = env.block.height + 10;
    for (height, allowed) in [(at - 1, true), (at, false), (at + 1, false)] {
        let mut state = setup_contract();
        mint(&mut state, "t", "alice");
        let approve = HandleMsg::Approve {
            spender: addr("bob"),
            token_id: "t".to_string(),
            expires: Some(Expiration::AtHeight(at)),
        };
        handle(&mut state, env, mock_info("alice"), approve).unwrap();

        let later = Env { block: BlockInfo { height, time: env.block.time } };
        let transfer =
            HandleMsg::TransferNft { recipient: addr("carol"), token_id: "t".to_string() };
        let res = handle(&mut state, later, mock_info("bob"), transfer);
        if allowed {
            res.unwrap();
        } else {
            assert_eq!(res.unwrap_err(), ContractError::Unauthorized);
        }
    }
}

#[test]
fn operator_holds_until_the_time_of_its_expiry() {
    let env = mock_env();
    let at = env.block.time + 60;
    for (time, allowed) in [(at - 1, true), (at, false), (at + 1, false)] {
        let mut state = setup_contract();
        mint(&mut state, "t", "alice");
        let all =
            HandleMsg::ApproveAll { operator: addr("olga"), expires: Some(Expiration::AtTime(at)) };
        handle(&mut state, env, mock_info("alice"), all).unwrap();

        let later = Env { block: BlockInfo { height: env.block.height + 5, time } };
        let transfer =
            HandleMsg::TransferNft { recipient: addr("carol"), token_id: "t".to_string() };
        let res = handle(&mut state, later, mock_info("olga"), transfer);
        if allowed {
            res.unwrap();
        } else {
            assert_eq!(res.unwrap_err(), ContractError::Unauthorized);
        }
    }
}

#[test]
fn approval_does_not_let_its_holder_approve() {
    let mut state = setup_contract();
    mint(&mut state, "t", "alice");
    let approve =
        HandleMsg::Approve { spender: addr("bob"), token_id: "t".to_string(), expires: None };
    handle(&mut state, mock_env(), mock_info("alice"), approve).unwrap();

    // bob may send the token but may not pass the right on
    let pass_on =
        HandleMsg::Approve { spender: addr("carol"), token_id: "t".to_string(), expires: None };
    let err = handle(&mut state, mock_env(), mock_info("bob"), pass_on).unwrap_err();
    assert_eq!(err, ContractError::Unauthorized);
    let revoke = HandleMsg::Revoke { spender: addr("bob"), token_id: "t".to_string() };
    let err = handle(&mut state, mock_env(), mock_info("carol"), revoke).unwrap_err();
    assert_eq!(err, ContractError::Unauthorized);

    // an operator of the owner may
    let all = HandleMsg::ApproveAll { operator: addr("olga"), expires: None };
    handle(&mut state, mock_env(), mock_info("alice"), all).unwrap();
    let by_operator =
        HandleMsg::Approve { spender: addr("carol"), token_id: "t".to_string(), expires: None };
    handle(&mut state, mock_env(), mock_info("olga"), by_operator).unwrap();
    let shown = query_owner_of(&state, mock_env(), "t".to_string(), true).unwrap();
    assert_eq!(
        shown.approvals,
        vec![
            Approval { spender: canonical("bob"), expires: Expiration::Never },
            Approval { spender: canonical("carol"), expires: Expiration::Never },
        ]
    );
}

#[test]
fn new_approval_replaces_the_one_of_the_same_spender() {
    let mut state = setup_contract();
    mint(&mut state, "t", "alice");
    let env = mock_env();
    for (spender, expires) in [
        ("bob", Expiration::AtHeight(env.block.height + 5)),
        ("carol", Expiration::Never),
        ("bob", Expiration::AtTime(env.block.time + 5)),
    ] {
        let approve = HandleMsg::Approve {
            spender: addr(spender),
            token_id: "t".to_string(),
            expires: Some(expires),
        };
        handle(&mut state, env, mock_info("alice"), approve).unwrap();
    }
    let shown = query_owner_of(&state, env, "t".to_string(), true).unwrap();
    assert_eq!(
        shown.approvals,
        vec![
            Approval { spender: canonical("carol"), expires: Expiration::Never },
            Approval { spender: canonical("bob"), expires: Expiration::AtTime(env.block.time + 5) },
        ]
    );

    // a query leaves out what has lapsed unless asked for it
    let later = Env { block: BlockInfo { height: env.block.height, time: env.block.time + 5 } };
    let shown = query_owner_of(&state, later, "t".to_string(), false).unwrap();
    assert_eq!(
        shown.approvals,
        vec![Approval { spender: canonical("carol"), expires: Expiration::Never }]
    );

    // revoking is idempotent
    let revoke = HandleMsg::Revoke { spender: addr("dave"), token_id: "t".to_string() };
    handle(&mut state, env, mock_info("alice"), revoke).unwrap();
    let revoke_all = HandleMsg::RevokeAll { operator: addr("dave") };
    handle(&mut state, env, mock_info("alice"), revoke_all).unwrap();
    let shown = query_owner_of(&state, env, "t".to_string(), true).unwrap();
    assert_eq!(shown.approvals.len(), 2);
}

#[test]
fn operator_grant_survives_transfers() {
    let mut state = setup_contract();
    mint(&mut state, "t1", "alice");
    mint(&mut state, "t2", "bob");
    let all = HandleMsg::ApproveAll { operator: addr("olga"), expires: None };
    handle(&mut state, mock_env(), mock_info("alice"), all).unwrap();

    // the grant covers a token that comes to alice later
    let transfer = HandleMsg::TransferNft { recipient: addr("alice"), token_id: "t2".to_string() };
    handle(&mut state, mock_env(), mock_info("bob"), transfer).unwrap();
    let transfer = HandleMsg::TransferNft { recipient: addr("carol"), token_id: "t2".to_string() };
    handle(&mut state, mock_env(), mock_info("olga"), transfer).unwrap();

    // and it is not a grant on what carol owns
    let transfer = HandleMsg::TransferNft { recipient: addr("olga"), token_id: "t2".to_string() };
    let err = handle(&mut state, mock_env(), mock_info("olga"), transfer).unwrap_err();
    assert_eq!(err, ContractError::Unauthorized);

    let operators = query_all_approvals(&state, mock_env(), addr("alice"), false, None, None);
    assert_eq!(
        operators.operators,
        vec![Approval { spender: canonical("olga"), expires: Expiration::Never }]
    );
}

#[test]
fn battle_raises_levels() {
    let mut state = setup_contract();
    for (id, level) in [("strong", 5u64), ("weak", 2u64)] {
        let msg = HandleMsg::Mint(MintMsg {
            token_id: id.to_string(),
            owner: addr("alice"),
            name: id.to_string(),
            level,
            description: None,
            image: None,
        });
        handle(&mut state, mock_env(), mock_info(MINTER), msg).unwrap();
    }
    let battle = HandleMsg::BattleMonster {
        attacker_id: "weak".to_string(),
        defender_id: "strong".to_string(),
    };
    let res = handle(&mut state, mock_env(), mock_info("anyone"), battle).unwrap();
    assert_eq!(
        res.attributes,
        vec![
            attr("action", "battle_monster"),
            attr("attacker_id", "weak"),
            attr("defender_id", "strong"),
        ]
    );
    assert_eq!(3, query_nft_info(&state, "weak".to_string()).unwrap().level);
    assert_eq!(7, query_nft_info(&state, "strong".to_string()).unwrap().level);

    let battle = HandleMsg::BattleMonster {
        attacker_id: "strong".to_string(),
        defender_id: "weak".to_string(),
    };
    handle(&mut state, mock_env(), mock_info("anyone"), battle).unwrap();
    assert_eq!(4, query_nft_info(&state, "weak".to_string()).unwrap().level);
    assert_eq!(9, query_nft_info(&state, "strong".to_string()).unwrap().level);

    let battle = HandleMsg::BattleMonster {
        attacker_id: "strong".to_string(),
        defender_id: "ghost".to_string(),
    };
    let err = handle(&mut state, mock_env(), mock_info("anyone"), battle).unwrap_err();
    assert_eq!(err, ContractError::NotFound);
}

#[test]
fn pages_reproduce_the_listing() {
    let mut state = setup_contract();
    let mut ids: Vec<String> = Vec::new();
    for i in 0..47u32 {
        let id = format!("token-{:03}", (i * 37) % 47);
        mint(&mut state, &id, if i % 3 == 0 { "alice" } else { "bob" });
        ids.push(id);
    }
    ids.sort();

    for sizes in [vec![1u32, 2, 3, 50, 50], vec![10, 10, 10, 10, 10], vec![30, 30], vec![7; 7]] {
        let mut seen: Vec<String> = Vec::new();
        let mut cursor: Option<String> = None;
        for size in sizes {
            let page = query_all_tokens(&state, cursor.clone(), Some(size)).tokens;
            assert!(page.len() <= 30);
            if let Some(last) = page.last() {
                cursor = Some(last.clone());
            }
            seen.extend(page);
        }
        assert_eq!(seen, ids);
    }

    // the default page holds 10 and the largest 30
    assert_eq!(10, query_all_tokens(&state, None, None).tokens.len());
    assert_eq!(30, query_all_tokens(&state, None, Some(31)).tokens.len());
    assert_eq!(30, query_all_tokens(&state, None, Some(u32::MAX)).tokens.len());
    assert_eq!(0, query_all_tokens(&state, None, Some(0)).tokens.len());
    assert_eq!(ids[..30].to_vec(), query_all_tokens(&state, None, Some(30)).tokens);

    // a cursor that is no identifier starts after the place where it would stand
    let page = query_all_tokens(&state, Some("token-010x".to_string()), Some(2)).tokens;
    assert_eq!(page, vec!["token-011".to_string(), "token-012".to_string()]);
    let page = query_all_tokens(&state, Some("zzz".to_string()), None).tokens;
    assert_eq!(page.len(), 0);
}

#[test]
fn restored_state_rejects_doubled_approvals() {
    let info = ContractInfoResponse { name: "n".to_string(), symbol: "s".to_string() };
    let mut state = Registry::restore(info, canonical(MINTER), 7);
    assert_eq!(7, query_num_tokens(&state).count);
    let doubled = cosmons::registry::state::TokenInfo {
        owner: canonical("alice"),
        approvals: vec![
            Approval { spender: canonical("bob"), expires: Expiration::Never },
            Approval { spender: canonical("carol"), expires: Expiration::Never },
            Approval { spender: canonical("bob"), expires: Expiration::AtHeight(3) },
        ],
        name: "x".to_string(),
        level: 0,
        description: String::new(),
        image: None,
    };
    let mut single = doubled.clone();
    single.approvals.pop();
    let mut ownerless = single.clone();
    ownerless.owner = vec![];
    assert!(!state.restore_token("x".to_string(), ownerless));
    assert!(!state.restore_token("x".to_string(), doubled));
    assert_eq!(0, query_all_tokens(&state, None, None).tokens.len());
    assert!(state.restore_token("x".to_string(), single));
    assert_eq!(vec!["x".to_string()], query_tokens(&state, addr("alice"), None, None).tokens);
    assert_eq!(0, state.grantor_count());
    state.restore_operator(canonical("alice"), canonical("olga"), Expiration::Never);
    assert_eq!(1, state.grantor_count());
    assert_eq!(&canonical("alice"), state.grantor_at(0));
}

fn token(owner: &str, approvals: Vec<Approval>) -> TokenInfo {
    TokenInfo {
        owner: canonical(owner),
        approvals,
        name: "n".to_string(),
        level: 3,
        description: "d".to_string(),
        image: Some("i".to_string()),
    }
}

#[test]
fn can_send_is_for_owner_approved_and_operator_only() {
    let env = mock_env();
    let mut state = setup_contract();
    state.restore_operator(canonical("alice"), canonical("olga"), Expiration::Never);
    state.restore_operator(
        canonical("alice"),
        canonical("late"),
        Expiration::AtHeight(env.block.height),
    );
    state.restore_operator(canonical("zed"), canonical("other"), Expiration::Never);
    let record = token(
        "alice",
        vec![
            Approval { spender: canonical("bob"), expires: Expiration::AtTime(env.block.time + 1) },
            Approval { spender: canonical("gone"), expires: Expiration::AtTime(env.block.time) },
        ],
    );

    for (who, send, approve) in [
        ("alice", true, true),
        ("bob", true, false),
        ("gone", false, false),
        ("olga", true, true),
        ("late", false, false),
        ("other", false, false),
        ("nobody", false, false),
    ] {
        let sent = check_can_send(&state, &env, &mock_info(who), &record);
        let approved = check_can_approve(&state, &env, &mock_info(who), &record);
        assert_eq!(sent, if send { Ok(()) } else { Err(ContractError::Unauthorized) }, "{}", who);
        assert_eq!(
            approved,
            if approve { Ok(()) } else { Err(ContractError::Unauthorized) },
            "{}",
            who
        );
    }
}

#[test]
fn shown_approvals_leave_out_what_has_lapsed() {
    let block = BlockInfo { height: 10, time: 100 };
    let record = token(
        "alice",
        vec![
            Approval { spender: canonical("ann"), expires: Expiration::AtHeight(10) },
            Approval { spender: canonical("ben"), expires: Expiration::AtHeight(11) },
            Approval { spender: canonical("cyd"), expires: Expiration::AtTime(99) },
            Approval { spender: canonical("dee"), expires: Expiration::Never },
        ],
    );
    assert_eq!(shown_approvals(&block, &record, true), record.approvals);
    assert_eq!(
        shown_approvals(&block, &record, false),
        vec![record.approvals[1].clone(), record.approvals[3].clone()]
    );
    assert!(has_distinct_spenders(&record.approvals));
    assert!(has_distinct_spenders(&vec![]));
}

#[test]
fn queries_answer_by_their_kind() {
    let mut state = setup_contract();
    mint(&mut state, "t1", "alice");
    mint(&mut state, "t2", "bob");
    let all = HandleMsg::ApproveAll { operator: addr("olga"), expires: None };
    handle(&mut state, mock_env(), mock_info("alice"), all).unwrap();
    let env = mock_env();

    assert_eq!(
        query(&state, env, QueryMsg::Minter),
        Ok(QueryResponse::Minter(MinterResponse { minter: canonical(MINTER) }))
    );
    assert_eq!(
        query(&state, env, QueryMsg::ContractInfo),
        Ok(QueryResponse::ContractInfo(ContractInfoResponse {
            name: CONTRACT_NAME.to_string(),
            symbol: SYMBOL.to_string()
        }))
    );
    assert_eq!(
        query(&state, env, QueryMsg::NumTokens),
        Ok(QueryResponse::NumTokens(NumTokensResponse { count: 2 }))
    );
    let info = NftInfoResponse {
        name: "name of t1".to_string(),
        level: 1,
        description: String::new(),
        image: None,
    };
    let access = OwnerOfResponse { owner: canonical("alice"), approvals: vec![] };
    assert_eq!(
        query(&state, env, QueryMsg::NftInfo { token_id: "t1".to_string() }),
        Ok(QueryResponse::NftInfo(info.clone()))
    );
    assert_eq!(
        query(&state, env, QueryMsg::OwnerOf { token_id: "t1".to_string(), include_expired: None }),
        Ok(QueryResponse::OwnerOf(access.clone()))
    );
    assert_eq!(
        query(
            &state,
            env,
            QueryMsg::AllNftInfo { token_id: "t1".to_string(), include_expired: Some(true) }
        ),
        Ok(QueryResponse::AllNftInfo(AllNftInfoResponse { access: access.clone(), info }))
    );
    assert_eq!(
        query_all_nft_info(&state, env, "t1".to_string(), false).unwrap().access,
        access
    );
    for msg in [
        QueryMsg::NftInfo { token_id: "t3".to_string() },
        QueryMsg::OwnerOf { token_id: "t3".to_string(), include_expired: Some(true) },
        QueryMsg::AllNftInfo { token_id: "".to_string(), include_expired: None },
    ] {
        assert_eq!(query(&state, env, msg), Err(ContractError::NotFound));
    }
    assert_eq!(
        query(
            &state,
            env,
            QueryMsg::ApprovedForAll {
                owner: addr("alice"),
                include_expired: None,
                start_after: None,
                limit: None
            }
        ),
        Ok(QueryResponse::ApprovedForAll(ApprovedForAllResponse {
            operators: vec![Approval { spender: canonical("olga"), expires: Expiration::Never }]
        }))
    );
    assert_eq!(
        query(
            &state,
            env,
            QueryMsg::Tokens { owner: addr("bob"), start_after: None, limit: Some(5) }
        ),
        Ok(QueryResponse::Tokens(TokensResponse { tokens: vec!["t2".to_string()] }))
    );
    assert_eq!(
        query(
            &state,
            env,
            QueryMsg::AllTokens { start_after: Some("t1".to_string()), limit: None }
        ),
        Ok(QueryResponse::Tokens(TokensResponse { tokens: vec!["t2".to_string()] }))
    );
}

#[test]
fn token_map_keeps_its_index_by_owner() {
    let mut map = TokenMap::new();
    assert_eq!(0, map.len());
    map.save("b".to_string(), token("alice", vec![]));
    map.save("a".to_string(), token("alice", vec![]));
    map.save("c".to_string(), token("bob", vec![]));
    assert_eq!(3, map.len());
    assert_eq!("a", map.id_at(0));
    assert_eq!(canonical("alice"), map.token_at(1).owner);
    assert_eq!(map.ids_page(None, 2), vec!["a".to_string(), "b".to_string()]);
    assert_eq!(
        map.owned_page(&canonical("alice"), None, 9),
        vec!["a".to_string(), "b".to_string()]
    );

    // writing a record with another owner moves the token in the index
    map.save("a".to_string(), token("bob", vec![]));
    assert_eq!(3, map.len());
    assert_eq!(map.owned_page(&canonical("alice"), None, 9), vec!["b".to_string()]);
    assert_eq!(map.owned_page(&canonical("bob"), None, 9), vec!["a".to_string(), "c".to_string()]);
    assert_eq!(map.owned_page(&canonical("bob"), Some(b"a"), 9), vec!["c".to_string()]);
    assert_eq!(map.owned_page(&canonical("carol"), None, 9), Vec::<String>::new());
    assert_eq!(map.load(b"a").unwrap().owner, canonical("bob"));
    assert!(map.load(b"d").is_none());
}

#[test]
fn count_and_records_are_read_from_the_state() {
    let mut state = setup_contract();
    assert_eq!(0, num_tokens(&state));
    assert_eq!(1, increment_tokens(&mut state));
    assert_eq!(1, num_tokens(&state));
    assert_eq!(0, tokens(&state).len());
    assert_eq!(&canonical(MINTER), state.minter());
    assert_eq!(SYMBOL, state.contract_info().symbol);
    assert_eq!(None, state.operator(&canonical("ann"), &canonical("ben")));
    state.restore_operator(canonical("ann"), canonical("ben"), Expiration::AtTime(4));
    assert_eq!(Some(Expiration::AtTime(4)), state.operator(&canonical("ann"), &canonical("ben")));
    assert_eq!(1, state.operators_of(&canonical("ann")).unwrap().len());
    let revoke = HandleMsg::RevokeAll { operator: addr("ben") };
    handle(&mut state, mock_env(), mock_info("ann"), revoke).unwrap();
    assert!(state.operators_of(&canonical("ann")).is_none());
}

#[test]
fn every_error_has_its_message() {
    for (e, m) in [
        (ContractError::Unauthorized, "Unauthorized"),
        (ContractError::NotFound, "not found"),
        (ContractError::Claimed, "token_id already claimed"),
        (ContractError::Expired, "Cannot set approval that is already expired"),
        (ContractError::NoData, "No data in ReceiveMsg"),
        (ContractError::InvalidPayload, "Invalid data in ReceiveMsg"),
        (ContractError::InsufficientFunds, "Insufficient funds"),
    ] {
        assert_eq!(e.message(), m);
    }
}
