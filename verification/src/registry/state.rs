//! The state of the registry: the token records with the index of tokens by
//! owner, the operator grants, the minter and the count of tokens minted.

use crate::bytes::{ascending, copy_bytes};
use crate::expiration::Expiration;
use crate::ordered_map::{cursor, keys_of, lemma_map_of_entry, map_of, OrderedMap, StorageKey};
use crate::paging::page;
use crate::prefixed_map::PrefixedMap;
use vstd::prelude::*;

verus! {

/// The right of a spender to transfer or send one token, until it lapses.
#[derive(Clone, Debug, PartialEq, Eq)]
pub struct Approval {
    /// The participant that may transfer or send the token, in canonical form.
    pub spender: Vec<u8>,
    /// When the right lapses.
    pub expires: Expiration,
}

/// An approval as plain values.
pub struct ApprovalView {
    pub spender: Seq<u8>,
    pub expires: Expiration,
}

impl View for Approval {
    type V = ApprovalView;

    open spec fn view(&self) -> ApprovalView {
        ApprovalView { spender: self.spender@, expires: self.expires }
    }
}

impl Approval {
    /// A copy of the approval.
    pub fn duplicate(&self) -> (a: Self)
        ensures
            a@ == self@,
    {
        Approval { spender: copy_bytes(self.spender.as_slice()), expires: self.expires }
    }
}

/// A list of approvals as plain values.
pub open spec fn approvals_view(approvals: Seq<Approval>) -> Seq<ApprovalView> {
    approvals.map_values(|a: Approval| a@)
}

/// No spender has two approvals in the list.
pub open spec fn distinct_spenders(approvals: Seq<ApprovalView>) -> bool {
    forall|i: int, j: int|
        0 <= i < j < approvals.len() ==> (#[trigger] approvals[i]).spender != (
        #[trigger] approvals[j]).spender
}

/// The record is one that the registry can hold: it names an owner, and no
/// spender has two approvals in it.
pub open spec fn sound(token: TokenInfoView) -> bool {
    token.owner.len() > 0 && distinct_spenders(token.approvals)
}

/// A text that may be missing, as a plain value.
pub open spec fn text_view(text: Option<String>) -> Option<Seq<char>> {
    match text {
        Some(t) => Some(t@),
        None => None,
    }
}

/// A copy of a text that may be missing.
pub fn duplicate_text(text: &Option<String>) -> (t: Option<String>)
    ensures
        text_view(t) == text_view(*text),
{
    match text {
        Some(s) => Some(s.clone()),
        None => None,
    }
}

/// The record of one token.
#[derive(Clone, Debug, PartialEq, Eq)]
pub struct TokenInfo {
    /// The owner, in canonical form.
    pub owner: Vec<u8>,
    /// The approvals that were given for this token since it last changed its
    /// owner, in the order in which they were given.
    pub approvals: Vec<Approval>,
    pub name: String,
    pub level: u64,
    pub description: String,
    /// Where an image of the token is found.
    pub image: Option<String>,
}

/// The record of one token as plain values.
pub struct TokenInfoView {
    pub owner: Seq<u8>,
    pub approvals: Seq<ApprovalView>,
    pub name: Seq<char>,
    pub level: u64,
    pub description: Seq<char>,
    pub image: Option<Seq<char>>,
}

impl View for TokenInfo {
    type V = TokenInfoView;

    open spec fn view(&self) -> TokenInfoView {
        TokenInfoView {
            owner: self.owner@,
            approvals: approvals_view(self.approvals@),
            name: self.name@,
            level: self.level,
            description: self.description@,
            image: text_view(self.image),
        }
    }
}

/// A copy of a list of approvals.
pub fn duplicate_approvals(approvals: &Vec<Approval>) -> (r: Vec<Approval>)
    ensures
        approvals_view(r@) == approvals_view(approvals@),
{
    let mut r: Vec<Approval> = Vec::new();
    let mut i: usize = 0;
    while i < approvals.len()
        invariant
            i <= approvals@.len(),
            r@.len() == i,
            approvals_view(r@) == approvals_view(approvals@).take(i as int),
        decreases approvals@.len() - i,
    {
        r.push(approvals[i].duplicate());
        i += 1;
        assert(approvals_view(r@) =~= approvals_view(approvals@).take(i as int));
    }
    assert(approvals_view(approvals@).take(i as int) =~= approvals_view(approvals@));
    r
}

/// Whether no spender has two approvals in the list.
pub fn has_distinct_spenders(approvals: &Vec<Approval>) -> (distinct: bool)
    ensures
        distinct == distinct_spenders(approvals_view(approvals@)),
{
    let ghost all = approvals_view(approvals@);
    let mut j: usize = 0;
    while j < approvals.len()
        invariant
            j <= approvals@.len(),
            all == approvals_view(approvals@),
            forall|a: int, b: int|
                0 <= a < b < j ==> (#[trigger] all[a]).spender != (#[trigger] all[b]).spender,
        decreases approvals@.len() - j,
    {
        let mut i: usize = 0;
        while i < j
            invariant
                i <= j < approvals@.len(),
                all == approvals_view(approvals@),
                forall|a: int| 0 <= a < i ==> (#[trigger] all[a]).spender != all[j as int].spender,
            decreases j - i,
        {
            let order = crate::bytes::compare_bytes(
                approvals[i].spender.as_slice(),
                approvals[j].spender.as_slice(),
            );
            if order == crate::bytes::ByteOrder::Same {
                assert(all[i as int].spender == all[j as int].spender);
                return false;
            }
            i += 1;
        }
        j += 1;
    }
    true
}

impl TokenInfo {
    /// A copy of the record.
    pub fn duplicate(&self) -> (t: Self)
        ensures
            t@ == self@,
    {
        TokenInfo {
            owner: copy_bytes(self.owner.as_slice()),
            approvals: duplicate_approvals(&self.approvals),
            name: self.name.clone(),
            level: self.level,
            description: self.description.clone(),
            image: duplicate_text(&self.image),
        }
    }
}

/// The key bytes of a list of token identifiers.
pub open spec fn id_keys(ids: Seq<String>) -> Seq<Seq<u8>> {
    ids.map_values(|id: String| id.key_bytes())
}

/// The index of the token records: for each owner the identifiers of the tokens
/// that it owns, in ascending order.
pub struct TokenIndexes {
    owner: PrefixedMap<String, ()>,
}

/// The token records by identifier, together with their index by owner. The
/// index is written only here, in the same step that writes a record, so that
/// it never drifts from the records.
pub struct TokenMap {
    primary: OrderedMap<String, TokenInfo>,
    idx: TokenIndexes,
}

impl View for TokenMap {
    type V = Map<Seq<u8>, TokenInfoView>;

    /// The records by the key bytes of their identifier.
    closed spec fn view(&self) -> Map<Seq<u8>, TokenInfoView> {
        self.primary@.map_values(|t: TokenInfo| t@)
    }
}

impl TokenMap {
    /// The identifiers of all tokens, as they are listed.
    pub closed spec fn ids(&self) -> Seq<Seq<u8>> {
        self.primary.keys()
    }

    /// The identifiers that the index lists under `owner`, as they are listed.
    pub closed spec fn owned(&self, owner: Seq<u8>) -> Seq<Seq<u8>> {
        keys_of(self.idx.owner.row(owner))
    }

    /// The records are listed in ascending order of their identifiers, and the
    /// index lists a token under an owner exactly where the record of the token
    /// names that owner.
    pub closed spec fn wf(&self) -> bool {
        &&& self.primary.wf()
        &&& self.idx.owner.wf()
        &&& forall|o: Seq<u8>, t: Seq<u8>| #[trigger]
            self.idx.owner.has(o, t) <==> (self.primary@.contains_key(t) && self.primary@[t].owner@
                == o)
    }

    /// The listing of all identifiers is ascending and holds exactly the
    /// identifiers of the records.
    pub proof fn lemma_ids(&self)
        requires
            self.wf(),
        ensures
            ascending(self.ids()),
            forall|t: Seq<u8>| self.ids().contains(t) <==> self@.contains_key(t),
    {
    }

    /// The index never drifts from the records: what it lists under an owner is
    /// ascending and holds exactly the identifiers of the tokens whose record
    /// names that owner.
    pub proof fn lemma_owned(&self, owner: Seq<u8>)
        requires
            self.wf(),
        ensures
            ascending(self.owned(owner)),
            forall|t: Seq<u8>|
                self.owned(owner).contains(t) <==> (self@.contains_key(t) && self@[t].owner
                    == owner),
    {
        self.idx.owner.lemma_row_ascending(owner);
        assert forall|t: Seq<u8>|
            self.owned(owner).contains(t) <==> (self@.contains_key(t) && self@[t].owner
                == owner) by {
            assert(self.idx.owner.has(owner, t) <==> (self.primary@.contains_key(t)
                && self.primary@[t].owner@ == owner));
        }
    }

    /// A map without records.
    pub fn new() -> (m: Self)
        ensures
            m.wf(),
            m@ == Map::<Seq<u8>, TokenInfoView>::empty(),
            m.ids() == Seq::<Seq<u8>>::empty(),
    {
        let m = TokenMap {
            primary: OrderedMap::new(),
            idx: TokenIndexes { owner: PrefixedMap::new() },
        };
        proof {
            assert(m@ =~= Map::<Seq<u8>, TokenInfoView>::empty());
            assert(m.ids() =~= Seq::<Seq<u8>>::empty());
            assert forall|o: Seq<u8>, t: Seq<u8>| !#[trigger] m.idx.owner.has(o, t) by {
                assert(m.idx.owner.row(o) == Seq::<(Seq<u8>, ())>::empty());
                assert(keys_of(m.idx.owner.row(o)) =~= Seq::<Seq<u8>>::empty());
            }
        }
        m
    }

    /// The number of records.
    pub fn len(&self) -> (n: usize)
        ensures
            n == self.ids().len(),
    {
        self.primary.len()
    }

    /// The identifier at place `i` of the listing of all identifiers.
    pub fn id_at(&self, i: usize) -> (id: &String)
        requires
            i < self.ids().len(),
        ensures
            id.key_bytes() == self.ids()[i as int],
    {
        self.primary.key_at(i)
    }

    /// The record of the token at place `i` of the listing of all identifiers.
    pub fn token_at(&self, i: usize) -> (token: &TokenInfo)
        requires
            self.wf(),
            i < self.ids().len(),
        ensures
            self@.contains_key(self.ids()[i as int]),
            token@ == self@[self.ids()[i as int]],
    {
        proof {
            lemma_map_of_entry(self.primary.entries(), i as int);
        }
        self.primary.value_at(i)
    }

    /// The record stored under the identifier with the key bytes `id`.
    pub fn load(&self, id: &[u8]) -> (r: Option<&TokenInfo>)
        requires
            self.wf(),
        ensures
            match r {
                Some(t) => self@.contains_key(id@) && self@[id@] == t@,
                None => !self@.contains_key(id@),
            },
    {
        self.primary.get(id)
    }

    /// Stores the record under the identifier, in place of the one that was
    /// stored there if there was one, and brings the index by owner up to date.
    pub fn save(&mut self, id: String, info: TokenInfo)
        requires
            old(self).wf(),
        ensures
            final(self).wf(),
            final(self)@ == old(self)@.insert(id.key_bytes(), info@),
    {
        let ghost key = id.key_bytes();
        let ghost new_owner = info.owner@;
        let ghost before = self.primary@;
        let ghost index0 = self.idx.owner;
        let previous_owner: Option<Vec<u8>> = match self.primary.get(id.as_key()) {
            Some(t) => Some(copy_bytes(t.owner.as_slice())),
            None => None,
        };
        match &previous_owner {
            Some(o) => {
                self.idx.owner.remove(o.as_slice(), id.as_key());
            },
            None => {},
        }
        let ghost index1 = self.idx.owner;
        self.idx.owner.insert(copy_bytes(info.owner.as_slice()), id.duplicate(), ());
        let ghost index2 = self.idx.owner;
        self.primary.insert(id, info);
        proof {
            let after = self.primary@;
            assert forall|o: Seq<u8>, t: Seq<u8>| #[trigger]
                index2.has(o, t) <==> (after.contains_key(t) && after[t].owner@ == o) by {
                assert(index0.has(o, t) <==> (before.contains_key(t) && before[t].owner@ == o));
                match previous_owner {
                    Some(p) => {
                        if o != p@ {
                            assert(index1.row(o) == index0.row(o));
                        }
                    },
                    None => {},
                }
                if o != new_owner {
                    assert(index2.row(o) == index1.row(o));
                }
            }
            assert(self@ =~= old(self)@.insert(key, info@));
        }
    }

    /// One page of the listing of all identifiers.
    pub fn ids_page(&self, start_after: Option<&[u8]>, size: usize) -> (r: Vec<String>)
        requires
            self.wf(),
        ensures
            id_keys(r@) == page(self.ids(), cursor(start_after), size as nat),
    {
        self.primary.keys_page(start_after, size)
    }

    /// One page of the listing of the identifiers that `owner` owns.
    pub fn owned_page(&self, owner: &[u8], start_after: Option<&[u8]>, size: usize) -> (r: Vec<
        String,
    >)
        requires
            self.wf(),
        ensures
            id_keys(r@) == page(self.owned(owner@), cursor(start_after), size as nat),
    {
        match self.idx.owner.under(owner) {
            Some(group) => group.keys_page(start_after, size),
            None => {
                let r: Vec<String> = Vec::new();
                proof {
                    let none = Seq::<Seq<u8>>::empty();
                    assert(self.owned(owner@) =~= none);
                    reveal(Seq::filter);
                    assert(page(none, cursor(start_after), size as nat) =~= none);
                    assert(id_keys(r@) =~= none);
                }
                r
            },
        }
    }
}

/// The name and the symbol of the collection of tokens.
#[derive(Clone, Debug, PartialEq, Eq)]
pub struct ContractInfoResponse {
    pub name: String,
    pub symbol: String,
}

/// The operator grants as a map from owner and operator to the expiry.
pub open spec fn grants_view(grants: PrefixedMap<Vec<u8>, Expiration>) -> Map<
    (Seq<u8>, Seq<u8>),
    Expiration,
> {
    Map::new(
        |k: (Seq<u8>, Seq<u8>)| grants.has(k.0, k.1),
        |k: (Seq<u8>, Seq<u8>)| grants.group(k.0)[k.1],
    )
}

/// The state of the registry.
pub struct Registry {
    contract_info: ContractInfoResponse,
    minter: Vec<u8>,
    token_count: u64,
    tokens: TokenMap,
    operators: PrefixedMap<Vec<u8>, Expiration>,
}

/// The state of the registry as plain values.
pub struct RegistryView {
    pub name: Seq<char>,
    pub symbol: Seq<char>,
    /// The one participant that may mint, in canonical form.
    pub minter: Seq<u8>,
    /// The number of tokens minted so far.
    pub token_count: u64,
    /// The token records, by the key bytes of their identifier.
    pub tokens: Map<Seq<u8>, TokenInfoView>,
    /// The expiry of each operator grant, by owner and operator.
    pub operators: Map<(Seq<u8>, Seq<u8>), Expiration>,
}

impl View for Registry {
    type V = RegistryView;

    closed spec fn view(&self) -> RegistryView {
        RegistryView {
            name: self.contract_info.name@,
            symbol: self.contract_info.symbol@,
            minter: self.minter@,
            token_count: self.token_count,
            tokens: self.tokens@,
            operators: grants_view(self.operators),
        }
    }
}

impl Registry {
    /// The identifiers of all tokens, as they are listed.
    pub closed spec fn token_ids(&self) -> Seq<Seq<u8>> {
        self.tokens.ids()
    }

    /// The identifiers of the tokens of `owner`, as the index lists them.
    pub closed spec fn owned_ids(&self, owner: Seq<u8>) -> Seq<Seq<u8>> {
        self.tokens.owned(owner)
    }

    /// The operators of `owner` with the expiry of their grant, as they are
    /// listed.
    pub closed spec fn grants_of(&self, owner: Seq<u8>) -> Seq<(Seq<u8>, Expiration)> {
        self.operators.row(owner)
    }

    /// The records and the grants are listed in ascending order, the index by
    /// owner agrees with the records, and every record is sound.
    pub closed spec fn wf(&self) -> bool {
        &&& self.tokens.wf()
        &&& self.operators.wf()
        &&& forall|t: Seq<u8>| #[trigger] self.tokens@.contains_key(t) ==> sound(self.tokens@[t])
    }

    /// Every token has an owner, and no token has two approvals for one
    /// spender.
    pub proof fn lemma_records_are_sound(&self, token: Seq<u8>)
        requires
            self.wf(),
            self@.tokens.contains_key(token),
        ensures
            self@.tokens[token].owner.len() > 0,
            distinct_spenders(self@.tokens[token].approvals),
    {
    }

    /// The listing of all identifiers is ascending and holds exactly the
    /// identifiers of the records.
    pub proof fn lemma_token_ids(&self)
        requires
            self.wf(),
        ensures
            ascending(self.token_ids()),
            forall|t: Seq<u8>| self.token_ids().contains(t) <==> self@.tokens.contains_key(t),
    {
        self.tokens.lemma_ids();
    }

    /// The index by owner agrees with the records: what it lists under an owner
    /// is ascending and holds exactly the identifiers of the tokens whose record
    /// names that owner.
    pub proof fn lemma_owned_ids(&self, owner: Seq<u8>)
        requires
            self.wf(),
        ensures
            ascending(self.owned_ids(owner)),
            forall|t: Seq<u8>|
                self.owned_ids(owner).contains(t) <==> (self@.tokens.contains_key(t)
                    && self@.tokens[t].owner == owner),
    {
        self.tokens.lemma_owned(owner);
    }

    /// The listing of the operators of an owner is ascending and holds exactly
    /// the grants of that owner.
    pub proof fn lemma_grants_of(&self, owner: Seq<u8>)
        requires
            self.wf(),
        ensures
            ascending(keys_of(self.grants_of(owner))),
            forall|operator: Seq<u8>|
                map_of(self.grants_of(owner)).contains_key(operator)
                    <==> self@.operators.contains_key((owner, operator)),
            forall|operator: Seq<u8>|
                self@.operators.contains_key((owner, operator)) ==> map_of(
                    self.grants_of(owner),
                )[operator] == self@.operators[(owner, operator)],
    {
        self.operators.lemma_row_ascending(owner);
    }

    /// A registry without tokens and grants.
    pub fn new(contract_info: ContractInfoResponse, minter: Vec<u8>) -> (state: Self)
        ensures
            state.wf(),
            state@ == (RegistryView {
                name: contract_info.name@,
                symbol: contract_info.symbol@,
                minter: minter@,
                token_count: 0,
                tokens: Map::empty(),
                operators: Map::empty(),
            }),
            state.token_ids() == Seq::<Seq<u8>>::empty(),
    {
        let state = Registry {
            contract_info,
            minter,
            token_count: 0,
            tokens: TokenMap::new(),
            operators: PrefixedMap::new(),
        };
        proof {
            assert forall|k: (Seq<u8>, Seq<u8>)| !state.operators.has(k.0, k.1) by {
                assert(state.operators.row(k.0) == Seq::<(Seq<u8>, Expiration)>::empty());
                assert(keys_of(state.operators.row(k.0)) =~= Seq::<Seq<u8>>::empty());
            }
            assert(grants_view(state.operators) =~= Map::empty());
        }
        state
    }

    /// A registry as it was stored: without tokens and grants yet, and with the
    /// count of tokens that were minted.
    pub fn restore(
        contract_info: ContractInfoResponse,
        minter: Vec<u8>,
        token_count: u64,
    ) -> (state: Self)
        ensures
            state.wf(),
            state@ == (RegistryView {
                name: contract_info.name@,
                symbol: contract_info.symbol@,
                minter: minter@,
                token_count,
                tokens: Map::empty(),
                operators: Map::empty(),
            }),
            state.token_ids() == Seq::<Seq<u8>>::empty(),
    {
        let mut state = Registry::new(contract_info, minter);
        state.token_count = token_count;
        state
    }

    /// Puts back the record of a token as it was stored. A record without an
    /// owner, or one in which a spender has two approvals, is not one that the
    /// registry wrote: it is refused, and the state stays as it was.
    pub fn restore_token(&mut self, id: String, info: TokenInfo) -> (stored: bool)
        requires
            old(self).wf(),
        ensures
            final(self).wf(),
            stored == sound(info@),
            stored ==> final(self)@ == (RegistryView {
                tokens: old(self)@.tokens.insert(id.key_bytes(), info@),
                ..old(self)@
            }),
            !stored ==> *final(self) == *old(self),
    {
        if info.owner.len() > 0 && has_distinct_spenders(&info.approvals) {
            self.save_token(id, info);
            true
        } else {
            false
        }
    }

    /// The owners that have given a grant to an operator, as they are listed.
    pub closed spec fn grantors(&self) -> Seq<Seq<u8>> {
        self.operators.prefixes()
    }

    /// The listing of grantors is ascending and holds exactly the owners that
    /// have an operator.
    pub proof fn lemma_grantors(&self)
        requires
            self.wf(),
        ensures
            ascending(self.grantors()),
            forall|owner: Seq<u8>|
                self.grantors().contains(owner) <==> self.grants_of(owner).len() > 0,
    {
        self.operators.lemma_prefixes();
    }

    /// The number of owners that have given a grant to an operator.
    pub fn grantor_count(&self) -> (n: usize)
        ensures
            n == self.grantors().len(),
    {
        self.operators.prefix_count()
    }

    /// The owner at place `i` of the listing of grantors.
    pub fn grantor_at(&self, i: usize) -> (owner: &Vec<u8>)
        requires
            i < self.grantors().len(),
        ensures
            owner@ == self.grantors()[i as int],
    {
        self.operators.prefix_at(i)
    }

    /// The name and the symbol of the collection.
    pub fn contract_info(&self) -> (info: &ContractInfoResponse)
        ensures
            info.name@ == self@.name,
            info.symbol@ == self@.symbol,
    {
        &self.contract_info
    }

    /// The one participant that may mint, in canonical form.
    pub fn minter(&self) -> (minter: &Vec<u8>)
        ensures
            minter@ == self@.minter,
    {
        &self.minter
    }

    /// The token records with their index.
    pub fn tokens(&self) -> (tokens: &TokenMap)
        ensures
            tokens@ == self@.tokens,
            tokens.ids() == self.token_ids(),
            forall|owner: Seq<u8>| #[trigger] tokens.owned(owner) == self.owned_ids(owner),
            self.wf() ==> tokens.wf(),
    {
        &self.tokens
    }

    /// Stores the record of a token, in place of the one stored under the
    /// identifier if there is one.
    pub(crate) fn save_token(&mut self, id: String, info: TokenInfo)
        requires
            old(self).wf(),
            sound(info@),
        ensures
            final(self).wf(),
            final(self)@ == (RegistryView {
                tokens: old(self)@.tokens.insert(id.key_bytes(), info@),
                ..old(self)@
            }),
    {
        self.tokens.save(id, info);
    }

    /// The expiry of the grant that `owner` gave to `operator`, if there is one.
    pub fn operator(&self, owner: &[u8], operator: &[u8]) -> (grant: Option<Expiration>)
        requires
            self.wf(),
        ensures
            grant == self@.operators.get((owner@, operator@)),
    {
        match self.operators.get(owner, operator) {
            Some(expires) => Some(*expires),
            None => None,
        }
    }

    /// The operators of `owner` with their grants, if it has any.
    pub fn operators_of(&self, owner: &[u8]) -> (r: Option<&OrderedMap<Vec<u8>, Expiration>>)
        requires
            self.wf(),
        ensures
            match r {
                Some(g) => g.wf() && g.entries() == self.grants_of(owner@) && g.entries().len()
                    > 0,
                None => self.grants_of(owner@) == Seq::<(Seq<u8>, Expiration)>::empty(),
            },
    {
        self.operators.under(owner)
    }

    /// Puts back the grant of `owner` to `operator` as it was stored.
    pub fn restore_operator(&mut self, owner: Vec<u8>, operator: Vec<u8>, expires: Expiration)
        requires
            old(self).wf(),
        ensures
            final(self).wf(),
            final(self)@ == (RegistryView {
                operators: old(self)@.operators.insert((owner@, operator@), expires),
                ..old(self)@
            }),
    {
        self.save_operator(owner, operator, expires);
    }

    /// Stores the grant of `owner` to `operator`, in place of an earlier one.
    pub(crate) fn save_operator(&mut self, owner: Vec<u8>, operator: Vec<u8>, expires: Expiration)
        requires
            old(self).wf(),
        ensures
            final(self).wf(),
            final(self)@ == (RegistryView {
                operators: old(self)@.operators.insert((owner@, operator@), expires),
                ..old(self)@
            }),
    {
        let ghost o = owner@;
        let ghost before = self.operators;
        self.operators.insert(owner, operator, expires);
        proof {
            let after = self.operators;
            assert forall|k: (Seq<u8>, Seq<u8>)|
                grants_view(after).contains_key(k) <==> grants_view(before).insert(
                    (o, operator@),
                    expires,
                ).contains_key(k) by {
                if k.0 != o {
                    assert(after.row(k.0) == before.row(k.0));
                }
            }
            assert forall|k: (Seq<u8>, Seq<u8>)| #[trigger]
                grants_view(after).contains_key(k) implies grants_view(after)[k] == grants_view(
                before,
            ).insert((o, operator@), expires)[k] by {
                if k.0 != o {
                    assert(after.row(k.0) == before.row(k.0));
                }
            }
            assert(grants_view(after) =~= grants_view(before).insert((o, operator@), expires));
        }
    }

    /// Removes the grant of `owner` to `operator`, if there is one.
    pub(crate) fn remove_operator(&mut self, owner: &[u8], operator: &[u8])
        requires
            old(self).wf(),
        ensures
            final(self).wf(),
            final(self)@ == (RegistryView {
                operators: old(self)@.operators.remove((owner@, operator@)),
                ..old(self)@
            }),
    {
        let ghost before = self.operators;
        self.operators.remove(owner, operator);
        proof {
            let after = self.operators;
            assert forall|k: (Seq<u8>, Seq<u8>)|
                grants_view(after).contains_key(k) <==> grants_view(before).remove(
                    (owner@, operator@),
                ).contains_key(k) by {
                if k.0 != owner@ {
                    assert(after.row(k.0) == before.row(k.0));
                }
            }
            assert forall|k: (Seq<u8>, Seq<u8>)| #[trigger]
                grants_view(after).contains_key(k) implies grants_view(after)[k] == grants_view(
                before,
            ).remove((owner@, operator@))[k] by {
                if k.0 != owner@ {
                    assert(after.row(k.0) == before.row(k.0));
                }
            }
            assert(grants_view(after) =~= grants_view(before).remove((owner@, operator@)));
        }
    }
}

/// The number of tokens minted so far.
pub fn num_tokens(state: &Registry) -> (count: u64)
    ensures
        count == state@.token_count,
{
    state.token_count
}

/// Counts one more token as minted, and hands back the new count.
pub fn increment_tokens(state: &mut Registry) -> (count: u64)
    requires
        old(state)@.token_count < u64::MAX,
    ensures
        count == old(state)@.token_count + 1,
        final(state)@ == (RegistryView { token_count: count, ..old(state)@ }),
        final(state).token_ids() == old(state).token_ids(),
        old(state).wf() ==> final(state).wf(),
{
    let count = state.token_count + 1;
    state.token_count = count;
    count
}

/// The token records of the registry, with their index by owner.
pub fn tokens(state: &Registry) -> (tokens: &TokenMap)
    ensures
        tokens@ == state@.tokens,
        tokens.ids() == state.token_ids(),
        forall|owner: Seq<u8>| #[trigger] tokens.owned(owner) == state.owned_ids(owner),
        state.wf() ==> tokens.wf(),
{
    state.tokens()
}

} // verus!
