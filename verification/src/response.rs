//! What a call hands back: the events it emits and the instructions that the
//! host is to carry out as part of the same transition.

use crate::address::{Address, Identity};
use crate::cw20::msg::Cw20HandleMsg;
use crate::cw20::receiver::Cw20ReceiveMsg;
use crate::cw4::helpers::Cw4HandleMsg;
use crate::expiration::Expiration;
use vstd::prelude::*;

verus! {

/// One key and value of an event.
#[derive(Clone, Debug, PartialEq, Eq)]
pub struct Attribute {
    pub key: String,
    pub value: String,
}

impl View for Attribute {
    type V = (Seq<char>, Seq<char>);

    open spec fn view(&self) -> (Seq<char>, Seq<char>) {
        (self.key@, self.value@)
    }
}

/// The attributes as pairs of texts.
pub open spec fn attributes_view(attributes: Seq<Attribute>) -> Seq<(Seq<char>, Seq<char>)> {
    attributes.map_values(|a: Attribute| a@)
}

/// An attribute with the key and the value given.
pub fn attr(key: &str, value: &str) -> (a: Attribute)
    ensures
        a@ == (key@, value@),
{
    Attribute { key: key.to_owned(), value: value.to_owned() }
}

/// The instructions that come with a receive message.
#[derive(Clone, Debug, PartialEq, Eq)]
pub enum Payload<T> {
    /// The message came without instructions.
    Absent,
    /// The message came with instructions that could not be read.
    Unreadable,
    /// The instructions.
    Given(T),
}

/// The notice that a registry sends to a contract to which a token was sent:
/// who sent it, which token, and the instructions that came with it. The
/// registry itself is the sender of the message that carries the notice.
#[derive(Clone, Debug, PartialEq, Eq)]
pub struct Cw721ReceiveMsg<T> {
    pub sender: Address,
    pub token_id: String,
    pub msg: Payload<T>,
}

/// What a token registry can be asked to do.
#[derive(Clone, Debug, PartialEq, Eq)]
pub enum Cw721HandleMsg {
    /// Move a token to another account without triggering actions.
    TransferNft { recipient: Identity, token_id: String },
    /// Move a token to a contract and trigger an action on it.
    SendNft { contract: Identity, token_id: String, msg: Option<Vec<u8>> },
    /// Let the spender transfer or send the token.
    Approve { spender: Identity, token_id: String, expires: Option<Expiration> },
    /// Take back what `Approve` gave.
    Revoke { spender: Identity, token_id: String },
    /// Let the operator transfer or send every token of the sender.
    ApproveAll { operator: Identity, expires: Option<Expiration> },
    /// Take back what `ApproveAll` gave.
    RevokeAll { operator: Identity },
}

/// A message for another contract.
#[derive(Clone, Debug, PartialEq, Eq)]
pub enum ExecuteMsg {
    Cw20(Cw20HandleMsg),
    Cw721(Cw721HandleMsg),
    Cw4(Cw4HandleMsg),
    /// The notice that tokens of a ledger were sent to the contract.
    Receive(Cw20ReceiveMsg<Vec<u8>>),
    /// The notice that a token of a registry was sent to the contract.
    ReceiveNft(Cw721ReceiveMsg<Vec<u8>>),
}

/// An instruction to the host: have the contract execute the message, as part
/// of the transition that the call makes. The host carries it out after the
/// call has returned, and undoes the whole transition if it fails.
#[derive(Clone, Debug, PartialEq, Eq)]
pub struct Instruction {
    pub contract_addr: Identity,
    pub msg: ExecuteMsg,
}

impl Cw721ReceiveMsg<Vec<u8>> {
    /// The instruction that sends this notice to the contract named.
    pub fn into_cosmos_msg(self, contract_addr: String) -> (r: Instruction)
        ensures
            r.contract_addr.is_human(contract_addr@),
            r.msg == ExecuteMsg::ReceiveNft(self),
    {
        Instruction {
            contract_addr: Identity::Human(contract_addr),
            msg: ExecuteMsg::ReceiveNft(self),
        }
    }
}

impl Instruction {
    /// The instruction has the ledger `ledger` pay `amount` to `recipient`.
    pub open spec fn is_payment(self, ledger: Seq<char>, recipient: Seq<u8>, amount: u128) -> bool {
        &&& self.contract_addr.is_human(ledger)
        &&& self.msg matches ExecuteMsg::Cw20(Cw20HandleMsg::Transfer { recipient: r, amount: a })
        &&& r.is_canonical(recipient)
        &&& a == amount
    }

    /// The instruction has the registry `registry` hand the token `token_id` to
    /// the participant with the display form `recipient`.
    pub open spec fn is_delivery(
        self,
        registry: Seq<u8>,
        recipient: Seq<char>,
        token_id: Seq<char>,
    ) -> bool {
        &&& self.contract_addr.is_canonical(registry)
        &&& self.msg matches ExecuteMsg::Cw721(
            Cw721HandleMsg::TransferNft { recipient: r, token_id: t },
        )
        &&& r.is_human(recipient)
        &&& t@ == token_id
    }

    /// The instruction has the registry `registry` hand the token `token_id`
    /// back to the participant with the canonical form `recipient`.
    pub open spec fn is_return(
        self,
        registry: Seq<u8>,
        recipient: Seq<u8>,
        token_id: Seq<char>,
    ) -> bool {
        &&& self.contract_addr.is_canonical(registry)
        &&& self.msg matches ExecuteMsg::Cw721(
            Cw721HandleMsg::TransferNft { recipient: r, token_id: t },
        )
        &&& r.is_canonical(recipient)
        &&& t@ == token_id
    }

    /// The instruction tells the contract `contract` that `sender` sent it the
    /// token `token_id`, with the instructions `msg` where there are any.
    pub open spec fn is_notice(
        self,
        contract: Seq<char>,
        sender: Address,
        token_id: Seq<char>,
        msg: Option<Vec<u8>>,
    ) -> bool {
        &&& self.contract_addr.is_human(contract)
        &&& self.msg matches ExecuteMsg::ReceiveNft(notice)
        &&& notice.sender.human@ == sender.human@
        &&& notice.sender.canonical@ == sender.canonical@
        &&& notice.token_id@ == token_id
        &&& match msg {
            None => notice.msg is Absent,
            Some(bytes) => notice.msg matches Payload::Given(b) && b@ == bytes@,
        }
    }
}

/// What a call that changes the state hands back.
#[derive(Clone, Debug, PartialEq, Eq)]
pub struct HandleResponse {
    /// The instructions to the host, in the order in which it is to carry them
    /// out.
    pub messages: Vec<Instruction>,
    /// The event.
    pub attributes: Vec<Attribute>,
    pub data: Option<Vec<u8>>,
}

/// What setting up a contract hands back.
#[derive(Clone, Debug, PartialEq, Eq)]
pub struct InitResponse {
    pub messages: Vec<Instruction>,
    pub attributes: Vec<Attribute>,
}

impl InitResponse {
    /// A response without instructions and without an event.
    pub fn new() -> (r: Self)
        ensures
            r.messages@.len() == 0,
            r.attributes@.len() == 0,
    {
        InitResponse { messages: Vec::new(), attributes: Vec::new() }
    }
}

} // verus!
