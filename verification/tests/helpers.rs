use cosmons::address::{Address, Identity};
use cosmons::cw20::receiver::Cw20ReceiveMsg;
use cosmons::cw4::helpers::{
    Cw4CanonicalContract, Cw4Contract, Cw4HandleMsg, Member, MemberAnswer, RawAnswer,
};
use cosmons::response::{Cw721ReceiveMsg, ExecuteMsg, InitResponse, Instruction, Payload};

#[test]
fn member_query_is_read() {
    let group = Cw4Contract("group".to_string());
    assert_eq!("group", group.addr());
    assert_eq!(
        group.is_member(RawAnswer::SystemError("no such contract".to_string())),
        MemberAnswer::Failed("Querier system error: no such contract".to_string())
    );
    assert_eq!(
        group.is_member(RawAnswer::ContractError("refused".to_string())),
        MemberAnswer::Failed("Querier contract error: refused".to_string())
    );
    assert_eq!(group.is_member(RawAnswer::Value(vec![])), MemberAnswer::NotMember);
    assert_eq!(
        group.is_member(RawAnswer::Value(b"17".to_vec())),
        MemberAnswer::Encoded(b"17".to_vec())
    );
    assert_eq!(Cw4CanonicalContract(vec![1, 2]), Cw4CanonicalContract(vec![1, 2]));
}

#[test]
fn notices_become_instructions() {
    let payment =
        Cw20ReceiveMsg { sender: "payer".to_string(), amount: 9, msg: Payload::Given(vec![1u8]) };
    assert_eq!(
        payment.clone().into_cosmos_msg("market".to_string()),
        Instruction {
            contract_addr: Identity::Human("market".to_string()),
            msg: ExecuteMsg::Receive(payment),
        }
    );
    let arrival = Cw721ReceiveMsg {
        sender: Address { human: "owner".to_string(), canonical: vec![7] },
        token_id: "t".to_string(),
        msg: Payload::Absent,
    };
    assert_eq!(
        arrival.clone().into_cosmos_msg("market".to_string()),
        Instruction {
            contract_addr: Identity::Human("market".to_string()),
            msg: ExecuteMsg::ReceiveNft(arrival),
        }
    );
    let empty = InitResponse::new();
    assert!(empty.messages.is_empty() && empty.attributes.is_empty());
    let a = Address { human: "h".to_string(), canonical: vec![1, 2, 3] };
    assert_eq!(a.duplicate(), a);
}

#[test]
fn group_is_told_of_its_new_admin_and_members() {
    let group = Cw4Contract("group".to_string());
    assert_eq!(
        group.update_admin(Some("boss".to_string())),
        Instruction {
            contract_addr: Identity::Human("group".to_string()),
            msg: ExecuteMsg::Cw4(Cw4HandleMsg::UpdateAdmin { admin: Some("boss".to_string()) }),
        }
    );
    assert_eq!(
        group.update_admin(None).msg,
        ExecuteMsg::Cw4(Cw4HandleMsg::UpdateAdmin { admin: None })
    );
    let add = vec![Member { addr: "new".to_string(), weight: 3 }];
    assert_eq!(
        group.update_members(vec!["old".to_string()], add.clone()),
        Instruction {
            contract_addr: Identity::Human("group".to_string()),
            msg: ExecuteMsg::Cw4(Cw4HandleMsg::UpdateMembers {
                remove: vec!["old".to_string()],
                add
            }),
        }
    );
}
