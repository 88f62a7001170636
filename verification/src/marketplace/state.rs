//! The state of the marketplace: the open offerings and the count of offerings
//! made, from which the identifier of the next one is taken.

use crate::bytes::{ascending, copy_bytes};
use crate::cw20::coin::Cw20CoinHuman;
use crate::marketplace::package::ContractInfoResponse;
use crate::ordered_map::{cursor, lemma_map_of_entry, OrderedMap, StorageKey};
use crate::paging::keys_after;
use crate::text::{decimal, decimal_value, is_decimal, lemma_decimal_value, parse_decimal};
use vstd::prelude::*;

verus! {

/// A token held in escrow and the price at which it is listed.
#[derive(Clone, Debug, PartialEq, Eq)]
pub struct Offering {
    pub token_id: String,
    /// The registry from which the token comes, in canonical form.
    pub contract_addr: Vec<u8>,
    /// Who listed the token, in canonical form.
    pub seller: Vec<u8>,
    pub list_price: Cw20CoinHuman,
}

/// An offering as plain values.
pub struct OfferingView {
    pub token_id: Seq<char>,
    pub contract_addr: Seq<u8>,
    pub seller: Seq<u8>,
    /// The ledger in which the price is paid, by its display form.
    pub price_address: Seq<char>,
    pub price_amount: u128,
}

impl View for Offering {
    type V = OfferingView;

    open spec fn view(&self) -> OfferingView {
        OfferingView {
            token_id: self.token_id@,
            contract_addr: self.contract_addr@,
            seller: self.seller@,
            price_address: self.list_price.address@,
            price_amount: self.list_price.amount,
        }
    }
}

impl Offering {
    /// A copy of the offering.
    pub fn duplicate(&self) -> (o: Self)
        ensures
            o@ == self@,
    {
        Offering {
            token_id: self.token_id.clone(),
            contract_addr: copy_bytes(self.contract_addr.as_slice()),
            seller: copy_bytes(self.seller.as_slice()),
            list_price: self.list_price.duplicate(),
        }
    }
}

/// The key bytes under which the offering with the identifier `id` is stored.
pub open spec fn offering_key(id: Seq<char>) -> Seq<u8> {
    vstd::utf8::encode_utf8(id)
}

/// The identifier is one that the marketplace has given out when it has made
/// `count` offerings: a number from 1 to `count`, in decimal.
pub open spec fn is_offering_id(id: Seq<char>, count: u64) -> bool {
    is_decimal(id) && 1 <= decimal_value(id) <= count
}

/// The key bytes are those of an identifier that the marketplace has given out
/// when it has made `count` offerings.
pub open spec fn is_offering_key(key: Seq<u8>, count: u64) -> bool {
    key == offering_key(vstd::utf8::decode_utf8(key)) && is_offering_id(
        vstd::utf8::decode_utf8(key),
        count,
    )
}

/// The identifier of the offering that is made when `count` offerings were
/// made before it: the next number, in decimal.
pub open spec fn next_offering_id(count: u64) -> Seq<char> {
    decimal((count + 1) as nat)
}

/// The state of the marketplace.
pub struct Marketplace {
    contract_info: ContractInfoResponse,
    offerings: OrderedMap<String, Offering>,
    offerings_count: u64,
}

/// The state of the marketplace as plain values.
pub struct MarketplaceView {
    pub name: Seq<char>,
    /// The open offerings, by the key bytes of their identifier.
    pub offerings: Map<Seq<u8>, OfferingView>,
    /// The number of offerings made so far, open or not.
    pub offerings_count: u64,
}

impl View for Marketplace {
    type V = MarketplaceView;

    closed spec fn view(&self) -> MarketplaceView {
        MarketplaceView {
            name: self.contract_info.name@,
            offerings: self.offerings@.map_values(|o: Offering| o@),
            offerings_count: self.offerings_count,
        }
    }
}

impl Marketplace {
    /// The identifiers of the open offerings, as they are listed.
    pub closed spec fn offering_ids(&self) -> Seq<Seq<u8>> {
        self.offerings.keys()
    }

    /// The offerings are listed in ascending order of their identifiers, and
    /// each identifier is one that the marketplace has given out: a number from
    /// 1 to the count of offerings made, in decimal.
    pub closed spec fn wf(&self) -> bool {
        &&& self.offerings.wf()
        &&& forall|key: Seq<u8>| #[trigger]
            self.offerings@.contains_key(key) ==> is_offering_key(key, self.offerings_count)
    }

    /// Every open offering has an identifier that the marketplace has given
    /// out, so the identifier that it gives out next is that of no open
    /// offering: listing a token never overwrites an offering.
    pub proof fn lemma_next_id_is_fresh(&self)
        requires
            self.wf(),
            self@.offerings_count < u64::MAX,
        ensures
            forall|key: Seq<u8>|
                self@.offerings.contains_key(key) ==> is_offering_key(
                    key,
                    self@.offerings_count,
                ),
            !self@.offerings.contains_key(
                offering_key(next_offering_id(self@.offerings_count)),
            ),
    {
        let id = next_offering_id(self.offerings_count);
        let key = offering_key(id);
        assert forall|k: Seq<u8>| self@.offerings.contains_key(k) implies is_offering_key(
            k,
            self@.offerings_count,
        ) by {
            assert(self.offerings@.contains_key(k));
        }
        if self.offerings@.contains_key(key) {
            vstd::utf8::encode_utf8_decode_utf8(id);
            lemma_decimal_value((self.offerings_count + 1) as nat);
        }
    }

    /// The listing of the open offerings is ascending and holds exactly the
    /// identifiers of the open offerings.
    pub proof fn lemma_offering_ids(&self)
        requires
            self.wf(),
        ensures
            ascending(self.offering_ids()),
            forall|id: Seq<u8>|
                self.offering_ids().contains(id) <==> self@.offerings.contains_key(id),
    {
    }

    /// A marketplace without offerings.
    pub fn new(contract_info: ContractInfoResponse) -> (state: Self)
        ensures
            state.wf(),
            state@ == (MarketplaceView {
                name: contract_info.name@,
                offerings: Map::empty(),
                offerings_count: 0,
            }),
            state.offering_ids() == Seq::<Seq<u8>>::empty(),
    {
        let state = Marketplace { contract_info, offerings: OrderedMap::new(), offerings_count: 0 };
        proof {
            assert(state@.offerings =~= Map::<Seq<u8>, OfferingView>::empty());
            assert(state.offering_ids() =~= Seq::<Seq<u8>>::empty());
        }
        state
    }

    /// A marketplace as it was stored: without offerings yet, and with the count
    /// of offerings that were made.
    pub fn restore(contract_info: ContractInfoResponse, offerings_count: u64) -> (state: Self)
        ensures
            state.wf(),
            state@ == (MarketplaceView {
                name: contract_info.name@,
                offerings: Map::empty(),
                offerings_count,
            }),
            state.offering_ids() == Seq::<Seq<u8>>::empty(),
    {
        let mut state = Marketplace::new(contract_info);
        state.offerings_count = offerings_count;
        state
    }

    /// The name of the marketplace.
    pub fn contract_info(&self) -> (info: &ContractInfoResponse)
        ensures
            info.name@ == self@.name,
    {
        &self.contract_info
    }

    /// The number of open offerings.
    pub fn len(&self) -> (n: usize)
        ensures
            n == self.offering_ids().len(),
    {
        self.offerings.len()
    }

    /// The place in the listing of the first open offering whose identifier
    /// comes after the cursor; 0 where there is no cursor.
    pub fn first_after(&self, start_after: Option<&[u8]>) -> (p: usize)
        requires
            self.wf(),
        ensures
            p <= self.offering_ids().len(),
            self.offering_ids().skip(p as int) == keys_after(
                self.offering_ids(),
                cursor(start_after),
            ),
    {
        self.offerings.first_after(start_after)
    }

    /// The identifier of the open offering at place `i` of the listing.
    pub fn id_at(&self, i: usize) -> (id: &String)
        requires
            i < self.offering_ids().len(),
        ensures
            id.key_bytes() == self.offering_ids()[i as int],
    {
        self.offerings.key_at(i)
    }

    /// The open offering at place `i` of the listing.
    pub fn offering_at(&self, i: usize) -> (offering: &Offering)
        requires
            self.wf(),
            i < self.offering_ids().len(),
        ensures
            self@.offerings.contains_key(self.offering_ids()[i as int]),
            offering@ == self@.offerings[self.offering_ids()[i as int]],
    {
        proof {
            lemma_map_of_entry(self.offerings.entries(), i as int);
        }
        self.offerings.value_at(i)
    }

    /// The open offering with the identifier that has the key bytes `id`.
    pub fn load(&self, id: &[u8]) -> (r: Option<&Offering>)
        requires
            self.wf(),
        ensures
            match r {
                Some(o) => self@.offerings.contains_key(id@) && self@.offerings[id@] == o@,
                None => !self@.offerings.contains_key(id@),
            },
    {
        self.offerings.get(id)
    }

    /// Puts back an offering as it was stored. An identifier that the
    /// marketplace cannot have given out, with the count of offerings that it
    /// has made, is refused, and the state stays as it was.
    pub fn restore_offering(&mut self, id: String, offering: Offering) -> (stored: bool)
        requires
            old(self).wf(),
        ensures
            final(self).wf(),
            stored == is_offering_id(id@, old(self)@.offerings_count),
            stored ==> final(self)@ == (MarketplaceView {
                offerings: old(self)@.offerings.insert(id.key_bytes(), offering@),
                ..old(self)@
            }),
            !stored ==> *final(self) == *old(self),
    {
        match parse_decimal(id.as_str()) {
            Some(n) => {
                if 1 <= n && n <= self.offerings_count {
                    self.save(id, offering);
                    true
                } else {
                    false
                }
            },
            None => false,
        }
    }

    /// Stores the offering under the identifier.
    pub(crate) fn save(&mut self, id: String, offering: Offering)
        requires
            old(self).wf(),
            is_offering_id(id@, old(self)@.offerings_count),
        ensures
            final(self).wf(),
            final(self)@ == (MarketplaceView {
                offerings: old(self)@.offerings.insert(id.key_bytes(), offering@),
                ..old(self)@
            }),
    {
        proof {
            vstd::utf8::encode_utf8_decode_utf8(id@);
        }
        self.offerings.insert(id, offering);
        assert(self@.offerings =~= old(self)@.offerings.insert(id.key_bytes(), offering@));
        assert forall|key: Seq<u8>| #[trigger]
            self.offerings@.contains_key(key) implies is_offering_key(key, self.offerings_count) by {
            if key != id.key_bytes() {
                assert(old(self).offerings@.contains_key(key));
            }
        }
    }

    /// Removes the offering with the identifier that has the key bytes `id`, if
    /// there is one.
    pub(crate) fn remove(&mut self, id: &[u8])
        requires
            old(self).wf(),
        ensures
            final(self).wf(),
            final(self)@ == (MarketplaceView {
                offerings: old(self)@.offerings.remove(id@),
                ..old(self)@
            }),
    {
        self.offerings.remove(id);
        assert(self@.offerings =~= old(self)@.offerings.remove(id@));
        assert forall|key: Seq<u8>| #[trigger]
            self.offerings@.contains_key(key) implies is_offering_key(key, self.offerings_count) by {
            assert(old(self).offerings@.contains_key(key));
        }
    }
}

/// The open offerings of the marketplace, by their identifiers.
pub fn offerings(state: &Marketplace) -> (offerings: &OrderedMap<String, Offering>)
    ensures
        offerings.keys() == state.offering_ids(),
        offerings@.map_values(|o: Offering| o@) == state@.offerings,
        state.wf() ==> offerings.wf(),
{
    &state.offerings
}

/// The number of offerings made so far.
pub fn num_offerings(state: &Marketplace) -> (count: u64)
    ensures
        count == state@.offerings_count,
{
    state.offerings_count
}

/// Counts one more offering as made, and hands back the new count.
pub fn increment_offerings(state: &mut Marketplace) -> (count: u64)
    requires
        old(state)@.offerings_count < u64::MAX,
    ensures
        count == old(state)@.offerings_count + 1,
        final(state)@ == (MarketplaceView { offerings_count: count, ..old(state)@ }),
        final(state).offering_ids() == old(state).offering_ids(),
        old(state).wf() ==> final(state).wf(),
{
    let count = state.offerings_count + 1;
    state.offerings_count = count;
    proof {
        if old(state).wf() {
            assert forall|key: Seq<u8>| #[trigger]
                state.offerings@.contains_key(key) implies is_offering_key(key, count) by {
                assert(old(state).offerings@.contains_key(key));
            }
        }
    }
    count
}

} // verus!
