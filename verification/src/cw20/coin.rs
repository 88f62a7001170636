use vstd::prelude::*;

verus! {

/// An amount on a fungible-token ledger, the ledger named by its display form.
#[derive(Clone, Debug, PartialEq, Eq)]
pub struct Cw20CoinHuman {
    pub address: String,
    pub amount: u128,
}

impl Cw20CoinHuman {
    /// A copy of the amount.
    pub fn duplicate(&self) -> (c: Self)
        ensures
            c.address@ == self.address@,
            c.amount == self.amount,
    {
        Cw20CoinHuman { address: self.address.clone(), amount: self.amount }
    }
}

} // verus!
