//! Participants: the form in which a caller names one, and the canonical form
//! in which the state stores and compares them.

use crate::bytes::copy_bytes;
use vstd::prelude::*;

verus! {

/// A participant as the host resolved it: the display form under which it was
/// named, and the canonical form that is stored and compared.
#[derive(Clone, Debug, PartialEq, Eq)]
pub struct Address {
    pub human: String,
    pub canonical: Vec<u8>,
}

impl Address {
    /// A copy of the address.
    pub fn duplicate(&self) -> (a: Self)
        ensures
            a.human@ == self.human@,
            a.canonical@ == self.canonical@,
    {
        Address { human: self.human.clone(), canonical: copy_bytes(self.canonical.as_slice()) }
    }
}

/// A participant named in an instruction to the host: by its display form where
/// the caller gave it so, by its canonical form where it comes from the state.
/// The host resolves the latter before it carries the instruction out.
#[derive(Clone, Debug, PartialEq, Eq)]
pub enum Identity {
    Human(String),
    Canonical(Vec<u8>),
}

impl Identity {
    /// The participant is named by the display form `name`.
    pub open spec fn is_human(self, name: Seq<char>) -> bool {
        self matches Identity::Human(h) && h@ == name
    }

    /// The participant is named by the canonical form `id`.
    pub open spec fn is_canonical(self, id: Seq<u8>) -> bool {
        self matches Identity::Canonical(c) && c@ == id
    }
}

/// The sender of the message that a call handles.
#[derive(Clone, Debug, PartialEq, Eq)]
pub struct MessageInfo {
    pub sender: Address,
}

} // verus!
