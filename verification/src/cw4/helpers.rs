use crate::address::Identity;
use crate::response::{ExecuteMsg, Instruction};
use vstd::prelude::*;

verus! {

/// A member of a group, with the weight of its vote.
#[derive(Clone, Debug, PartialEq, Eq)]
pub struct Member {
    pub addr: String,
    pub weight: u64,
}

/// What a group contract can be asked to do.
#[derive(Clone, Debug, PartialEq, Eq)]
pub enum Cw4HandleMsg {
    /// Change the admin, or have none.
    UpdateAdmin { admin: Option<String> },
    /// Take members out, then add members or change their weights.
    UpdateMembers { remove: Vec<String>, add: Vec<Member> },
    /// Have a contract told of every change of the members.
    AddHook { addr: String },
    /// Stop telling a contract of the changes.
    RemoveHook { addr: String },
}

/// What came back from a raw query to another contract.
#[derive(Clone, Debug, PartialEq, Eq)]
pub enum RawAnswer {
    /// The host could not make the query; the text says why.
    SystemError(String),
    /// The contract refused the query; the text says why.
    ContractError(String),
    /// The bytes stored under the key that was asked for; none where nothing is
    /// stored there.
    Value(Vec<u8>),
}

/// What a raw query for a member tells.
#[derive(Clone, Debug, PartialEq, Eq)]
pub enum MemberAnswer {
    /// The query failed, with this message.
    Failed(String),
    /// The address is no member of the group.
    NotMember,
    /// The address is a member; the bytes hold its weight, still encoded.
    Encoded(Vec<u8>),
}

/// A group contract, named by its display form. To persist it, turn it into a
/// `Cw4CanonicalContract`.
#[derive(Clone, Debug, PartialEq, Eq)]
pub struct Cw4Contract(pub String);

/// A group contract in the form that is stored.
#[derive(Clone, Debug, PartialEq, Eq)]
pub struct Cw4CanonicalContract(pub Vec<u8>);

impl Cw4Contract {
    /// The display form by which the contract is named.
    pub fn addr(&self) -> (a: String)
        ensures
            a@ == self.0@,
    {
        self.0.clone()
    }

    /// The instruction that has the group change its admin.
    pub fn update_admin(&self, admin: Option<String>) -> (r: Instruction)
        ensures
            r.contract_addr.is_human(self.0@),
            r.msg == ExecuteMsg::Cw4(Cw4HandleMsg::UpdateAdmin { admin }),
    {
        Instruction {
            contract_addr: Identity::Human(self.addr()),
            msg: ExecuteMsg::Cw4(Cw4HandleMsg::UpdateAdmin { admin }),
        }
    }

    /// The instruction that has the group take out the members in `remove`,
    /// and then add those in `add`.
    pub fn update_members(&self, remove: Vec<String>, add: Vec<Member>) -> (r: Instruction)
        ensures
            r.contract_addr.is_human(self.0@),
            r.msg == ExecuteMsg::Cw4(Cw4HandleMsg::UpdateMembers { remove, add }),
    {
        Instruction {
            contract_addr: Identity::Human(self.addr()),
            msg: ExecuteMsg::Cw4(Cw4HandleMsg::UpdateMembers { remove, add }),
        }
    }

    /// Reads what a raw query for a member of this group gave: a failure of the
    /// host or of the contract is a failure of the query; nothing stored under
    /// the member's key means that the address is no member; anything else is
    /// the member's weight, which is left to be decoded.
    pub fn is_member(&self, answer: RawAnswer) -> (r: MemberAnswer)
        ensures
            match answer {
                RawAnswer::SystemError(e) => r matches MemberAnswer::Failed(m) && m@
                    == "Querier system error: "@ + e@,
                RawAnswer::ContractError(e) => r matches MemberAnswer::Failed(m) && m@
                    == "Querier contract error: "@ + e@,
                RawAnswer::Value(v) => if v@.len() == 0 {
                    r is NotMember
                } else {
                    r matches MemberAnswer::Encoded(bytes) && bytes@ == v@
                },
            },
    {
        match answer {
            RawAnswer::SystemError(e) => {
                let mut m = "Querier system error: ".to_owned();
                m.append(e.as_str());
                MemberAnswer::Failed(m)
            },
            RawAnswer::ContractError(e) => {
                let mut m = "Querier contract error: ".to_owned();
                m.append(e.as_str());
                MemberAnswer::Failed(m)
            },
            RawAnswer::Value(v) => {
                if v.len() == 0 {
                    MemberAnswer::NotMember
                } else {
                    MemberAnswer::Encoded(v)
                }
            },
        }
    }
}

} // verus!
