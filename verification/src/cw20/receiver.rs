use crate::address::Identity;
use crate::response::{ExecuteMsg, Instruction, Payload};
use vstd::prelude::*;

verus! {

/// The notice that a ledger sends to a contract to which tokens were sent: who
/// sent them, how many, and the instructions that came with them. The ledger
/// itself is the sender of the message that carries the notice.
#[derive(Clone, Debug, PartialEq, Eq)]
pub struct Cw20ReceiveMsg<T> {
    pub sender: String,
    pub amount: u128,
    pub msg: Payload<T>,
}

impl Cw20ReceiveMsg<Vec<u8>> {
    /// The instruction that sends this notice to the contract named.
    pub fn into_cosmos_msg(self, contract_addr: String) -> (r: Instruction)
        ensures
            r.contract_addr.is_human(contract_addr@),
            r.msg == ExecuteMsg::Receive(self),
    {
        Instruction {
            contract_addr: Identity::Human(contract_addr),
            msg: ExecuteMsg::Receive(self),
        }
    }
}

} // verus!
