use std::collections::HashMap;

use vstd::prelude::*;

use crate::error::{CanisterError, NftError};
use crate::identity::{anonymous_bytes, Identity};
use crate::value::{GenericValue, Token, TokenData, TokenMetaData};

verus! {

broadcast use vstd::std_specs::hash::group_hash_axioms;

/// Counters kept beside the token table.
#[derive(Clone, Copy, Debug, PartialEq, Eq, Structural)]
pub struct Stats {
    pub total_supply: u64,
    pub total_transactions: u64,
    pub total_unique_holders: u64,
    pub cycles: u64,
}

/// Registry-wide descriptive fields and the custodian set.
#[derive(Clone, Debug)]
pub struct CanisterMetaData {
    pub name: Option<String>,
    pub symbol: Option<String>,
    pub logo: Option<String>,
    pub created_at: u64,
    pub upgraded_at: u64,
    pub custodians: Vec<Identity>,
}

impl CanisterMetaData {
    /// The identities allowed to perform guarded operations.
    pub open spec fn custodian_set(&self) -> Set<Seq<u8>> {
        self.custodians@.map_values(|c: Identity| c@).to_set()
    }
}

/// The one-time configuration given when the ledger is created.
#[derive(Clone, Debug)]
pub struct InitArguments {
    pub name: Option<String>,
    pub symbol: Option<String>,
    pub logo: Option<String>,
    pub custodians: Option<Vec<Identity>>,
}

/// `x + 1` modulo 2^64.
pub open spec fn wrap_inc(x: u64) -> u64 {
    if x == u64::MAX {
        0
    } else {
        (x + 1) as u64
    }
}

/// `x - 1` modulo 2^64.
pub open spec fn wrap_dec(x: u64) -> u64 {
    if x == 0 {
        u64::MAX
    } else {
        (x - 1) as u64
    }
}

/// The abstract state of a ledger.
pub struct LedgerState {
    pub registry: CanisterMetaData,
    pub tokens: Map<u64, Token>,
    /// For each identity that ever received a token, the identifiers it
    /// received, in order of minting.
    pub owners: Map<Seq<u8>, Seq<u64>>,
    pub stats: Stats,
}

impl LedgerState {
    pub open spec fn is_custodian(self, caller: Seq<u8>) -> bool {
        self.registry.custodian_set().contains(caller)
    }

    /// The identifier that a mint with `token_id` asks for.
    pub open spec fn mint_id(self, token_id: Option<u64>) -> u64 {
        match token_id {
            Some(id) => id,
            None => wrap_inc(self.stats.total_supply),
        }
    }

    /// The ownership index after `id` is recorded for `user`.
    pub open spec fn index_with(self, user: Seq<u8>, id: u64) -> Map<Seq<u8>, Seq<u64>> {
        if self.owners.contains_key(user) {
            self.owners.insert(user, self.owners[user].push(id))
        } else {
            self.owners.insert(user, seq![id])
        }
    }

    /// Consistency of the token table with the ownership index.
    pub open spec fn inv(self) -> bool {
        &&& forall|id: u64| #[trigger]
            self.tokens.contains_key(id) ==> self.tokens[id].metadata.wf()
        &&& forall|k: Seq<u8>| #[trigger]
            self.owners.contains_key(k) ==> self.owners[k].no_duplicates()
        &&& forall|k: Seq<u8>, i: int|
            self.owners.contains_key(k) && 0 <= i < self.owners[k].len() ==> {
                let id = #[trigger] self.owners[k][i];
                &&& self.tokens.contains_key(id)
                &&& (self.tokens[id].metadata.owner@ == k || self.tokens[id].metadata.is_burned)
            }
        &&& forall|id: u64| #[trigger]
            self.tokens.contains_key(id) && !self.tokens[id].metadata.is_burned ==> {
                let k = self.tokens[id].metadata.owner@;
                self.owners.contains_key(k) && self.owners[k].contains(id)
            }
    }

    /// What a mint does: guard, identifier resolution, collision check,
    /// then insertion of a fresh record and bookkeeping.
    pub open spec fn mint_step(
        self,
        post: LedgerState,
        caller: Seq<u8>,
        now: u64,
        user: Seq<u8>,
        token_id: Option<u64>,
        data: TokenData,
        properties: Option<Vec<(String, GenericValue)>>,
        r: Result<Result<u64, NftError>, CanisterError>,
    ) -> bool {
        let id = self.mint_id(token_id);
        if !self.is_custodian(caller) {
            r == Err::<Result<u64, NftError>, CanisterError>(CanisterError::NotCustodian)
                && post == self
        } else if self.tokens.contains_key(id) {
            r == Ok::<Result<u64, NftError>, CanisterError>(Err(NftError::ExistedNFT))
                && post == self
        } else {
            &&& r == Ok::<Result<u64, NftError>, CanisterError>(Ok(id))
            &&& post.registry == self.registry
            &&& post.tokens == self.tokens.insert(id, post.tokens[id])
            &&& post.tokens[id].data == data
            &&& post.tokens[id].metadata.is_fresh(user, properties, now)
            &&& post.owners == self.index_with(user, id)
            &&& post.stats.total_supply == wrap_inc(self.stats.total_supply)
            &&& post.stats.total_transactions == self.stats.total_transactions
            &&& post.stats.cycles == self.stats.cycles
            &&& post.stats.total_unique_holders == if self.owners.contains_key(user) {
                self.stats.total_unique_holders as int
            } else {
                self.stats.total_unique_holders + 1
            }
        }
    }

    /// What a burn does: guard, lookup, then the record is marked burned and
    /// handed to the anonymous identity; the ownership index is untouched.
    pub open spec fn burn_step(
        self,
        post: LedgerState,
        caller: Seq<u8>,
        now: u64,
        token_id: u64,
        r: Result<Result<(), NftError>, CanisterError>,
    ) -> bool {
        if !self.is_custodian(caller) {
            r == Err::<Result<(), NftError>, CanisterError>(CanisterError::NotCustodian)
                && post == self
        } else if !self.tokens.contains_key(token_id) {
            r == Ok::<Result<(), NftError>, CanisterError>(Err(NftError::TokenNotFound))
                && post == self
        } else {
            &&& r == Ok::<Result<(), NftError>, CanisterError>(Ok(()))
            &&& post.registry == self.registry
            &&& post.owners == self.owners
            &&& post.tokens == self.tokens.insert(token_id, post.tokens[token_id])
            &&& post.tokens[token_id].data == self.tokens[token_id].data
            &&& post.tokens[token_id].metadata.is_burn_of(
                self.tokens[token_id].metadata,
                caller,
                now,
            )
            &&& post.stats == (Stats {
                total_supply: wrap_dec(self.stats.total_supply),
                ..self.stats
            })
        }
    }
}

/// One entry of the ownership index.
struct OwnerEntry {
    owner: Identity,
    tokens: Vec<u64>,
}

/// All registry state: metadata, token table, ownership index, statistics.
pub struct Ledger {
    metadata: CanisterMetaData,
    tokens: HashMap<u64, Token>,
    owners: Vec<OwnerEntry>,
    index: Ghost<Map<Seq<u8>, Seq<u64>>>,
    stats: Stats,
}

impl View for Ledger {
    type V = LedgerState;

    closed spec fn view(&self) -> LedgerState {
        LedgerState {
            registry: self.metadata,
            tokens: self.tokens@,
            owners: self.index@,
            stats: self.stats,
        }
    }
}

impl Ledger {
    /// The abstract state is consistent, and the ownership entries are
    /// exactly the abstract index, one entry per identity.
    pub closed spec fn wf(&self) -> bool {
        &&& self@.inv()
        &&& self.stats.total_unique_holders == self.owners@.len()
        &&& forall|i: int, j: int|
            0 <= i < j < self.owners@.len() ==> #[trigger] self.owners@[i].owner@
                != #[trigger] self.owners@[j].owner@
        &&& forall|i: int|
            0 <= i < self.owners@.len() ==> {
                let e = #[trigger] self.owners@[i];
                self.index@.contains_key(e.owner@) && self.index@[e.owner@] == e.tokens@
            }
        &&& forall|k: Seq<u8>| #[trigger]
            self.index@.contains_key(k) ==> exists|i: int|
                0 <= i < self.owners@.len() && #[trigger] self.owners@[i].owner@ == k
    }

    /// A ledger with no tokens. The custodians are those given, or else the
    /// initializing caller alone; the creation times are set only when
    /// arguments are given.
    pub fn init(caller: &Identity, now: u64, args: Option<InitArguments>) -> (r: Ledger)
        ensures
            r.wf(),
            r@.tokens == Map::<u64, Token>::empty(),
            r@.owners == Map::<Seq<u8>, Seq<u64>>::empty(),
            r@.stats == (Stats {
                total_supply: 0,
                total_transactions: 0,
                total_unique_holders: 0,
                cycles: 0,
            }),
            match args {
                Some(a) => {
                    &&& r@.registry.name == a.name
                    &&& r@.registry.symbol == a.symbol
                    &&& r@.registry.logo == a.logo
                    &&& r@.registry.created_at == now
                    &&& r@.registry.upgraded_at == now
                    &&& match a.custodians {
                        Some(c) => r@.registry.custodians == c,
                        None => r@.registry.custodian_set() == set![caller@],
                    }
                },
                None => {
                    &&& r@.registry.name is None
                    &&& r@.registry.symbol is None
                    &&& r@.registry.logo is None
                    &&& r@.registry.created_at == 0
                    &&& r@.registry.upgraded_at == 0
                    &&& r@.registry.custodian_set() == set![caller@]
                },
            },
    {
        let mut defaults: Vec<Identity> = Vec::new();
        defaults.push(caller.duplicate());
        proof {
            let s = defaults@.map_values(|c: Identity| c@);
            assert(s =~= seq![caller@]);
            assert(s.to_set() =~= set![caller@]) by {
                assert(s[0] == caller@);
            }
        }
        let metadata = match args {
            Some(a) => {
                let custodians = match a.custodians {
                    Some(c) => c,
                    None => defaults,
                };
                CanisterMetaData {
                    name: a.name,
                    symbol: a.symbol,
                    logo: a.logo,
                    created_at: now,
                    upgraded_at: now,
                    custodians,
                }
            },
            None => CanisterMetaData {
                name: None,
                symbol: None,
                logo: None,
                created_at: 0,
                upgraded_at: 0,
                custodians: defaults,
            },
        };
        let r = Ledger {
            metadata,
            tokens: HashMap::new(),
            owners: Vec::new(),
            index: Ghost(Map::empty()),
            stats: Stats { total_supply: 0, total_transactions: 0, total_unique_holders: 0, cycles: 0 },
        };
        r
    }

    /// Position of `user`'s entry in the ownership index.
    fn find_owner(&self, user: &Identity) -> (r: Option<usize>)
        requires
            self.wf(),
        ensures
            match r {
                Some(i) => i < self.owners@.len() && self.owners@[i as int].owner@ == user@,
                None => !self.index@.contains_key(user@),
            },
    {
        let mut i: usize = 0;
        while i < self.owners.len()
            invariant
                0 <= i <= self.owners@.len(),
                forall|j: int| 0 <= j < i ==> self.owners@[j].owner@ != user@,
            decreases self.owners@.len() - i,
        {
            if self.owners[i].owner.same_as(user) {
                return Some(i);
            }
            i = i + 1;
        }
        None
    }

    /// Mints a token for `user`, under `token_id` or else under the next
    /// identifier after the current supply. Custodians only; fails without
    /// change when the identifier is taken.
    pub fn mint_token(
        &mut self,
        caller: &Identity,
        now: u64,
        user: Identity,
        token_id: Option<u64>,
        token_data: TokenData,
        properties: Option<Vec<(String, GenericValue)>>,
    ) -> (r: Result<Result<u64, NftError>, CanisterError>)
        requires
            old(self).wf(),
        ensures
            final(self).wf(),
            old(self)@.mint_step(
                final(self)@,
                caller@,
                now,
                user@,
                token_id,
                token_data,
                properties,
                r,
            ),
            !(r matches Ok(Ok(_))) ==> *final(self) == *old(self),
    {
        if let Err(e) = self.is_custodian(caller) {
            return Err(e);
        }
        let id = match token_id {
            Some(id) => id,
            None => self.stats.total_supply.wrapping_add(1),
        };
        assert(id == self@.mint_id(token_id));
        if self.tokens.contains_key(&id) {
            return Ok(Err(NftError::ExistedNFT));
        }
        let ghost pre = self@;
        let ghost pre_owners = self.owners@;
        let found = self.find_owner(&user);
        let ghost user_v = user@;
        let metadata = TokenMetaData::new(user.duplicate(), properties, now);
        self.tokens.insert(id, Token { metadata, data: token_data });
        match found {
            Some(i) => {
                let mut ids = self.owners[i].tokens.clone();
                assert(ids@ =~= self.owners@[i as int].tokens@);
                ids.push(id);
                let owner = self.owners[i].owner.duplicate();
                self.owners.set(i, OwnerEntry { owner, tokens: ids });
                proof {
                    self.index@ = pre.index_with(user_v, id);
                }
            },
            None => {
                let mut ids: Vec<u64> = Vec::new();
                ids.push(id);
                assert(ids@ =~= seq![id]);
                self.owners.push(OwnerEntry { owner: user, tokens: ids });
                self.stats.total_unique_holders = self.owners.len() as u64;
                proof {
                    self.index@ = pre.index_with(user_v, id);
                }
            },
        }
        self.stats.total_supply = self.stats.total_supply.wrapping_add(1);
        proof {
            assert(!pre.tokens.contains_key(id));
            if pre.owners.contains_key(user_v) {
                assert(!pre.owners[user_v].contains(id));
                assert(self@.owners[user_v] == pre.owners[user_v].push(id));
            }
            assert forall|k: Seq<u8>, j: int|
                self@.owners.contains_key(k) && 0 <= j < self@.owners[k].len() implies {
                    let t = #[trigger] self@.owners[k][j];
                    &&& self@.tokens.contains_key(t)
                    &&& (self@.tokens[t].metadata.owner@ == k || self@.tokens[t].metadata.is_burned)
                } by {
                if k == user_v && j == self@.owners[k].len() - 1 {
                } else {
                    assert(pre.owners.contains_key(k));
                    assert(self@.owners[k][j] == pre.owners[k][j]);
                }
            }
            assert forall|t: u64| #[trigger]
                self@.tokens.contains_key(t) && !self@.tokens[t].metadata.is_burned implies {
                    let k = self@.tokens[t].metadata.owner@;
                    self@.owners.contains_key(k) && self@.owners[k].contains(t)
                } by {
                if t == id {
                    assert(self@.owners[user_v].last() == id);
                } else {
                    let k = pre.tokens[t].metadata.owner@;
                    if k == user_v && pre.owners.contains_key(user_v) {
                        let w = choose|w: int| 0 <= w < pre.owners[k].len() && pre.owners[k][w] == t;
                        assert(self@.owners[k][w] == t);
                    }
                }
            }
            assert forall|k: Seq<u8>| #[trigger]
                self.index@.contains_key(k) implies exists|i: int|
                    0 <= i < self.owners@.len() && #[trigger] self.owners@[i].owner@ == k by {
                if k == user_v {
                    match found {
                        Some(i) => assert(self.owners@[i as int].owner@ == k),
                        None => assert(self.owners@[self.owners@.len() - 1].owner@ == k),
                    }
                } else {
                    let i = choose|i: int| 0 <= i < pre_owners.len() && #[trigger] pre_owners[i].owner@ == k;
                    assert(self.owners@[i].owner@ == k);
                }
            }
            assert forall|i: int| 0 <= i < self.owners@.len() implies {
                let e = #[trigger] self.owners@[i];
                self.index@.contains_key(e.owner@) && self.index@[e.owner@] == e.tokens@
            } by {
                if i < pre_owners.len() {
                    assert(pre.owners.contains_key(pre_owners[i].owner@));
                }
            }
        }
        Ok(Ok(id))
    }

    /// Burns a token: marks it burned by `caller` at `now`, hands it to the
    /// anonymous identity and lowers the supply by one, modulo 2^64, also
    /// when it was burned before. Custodians only. The token stays in its
    /// former owner's index entry.
    pub fn burn_token(&mut self, caller: &Identity, now: u64, token_id: u64) -> (r: Result<
        Result<(), NftError>,
        CanisterError,
    >)
        requires
            old(self).wf(),
        ensures
            final(self).wf(),
            old(self)@.burn_step(final(self)@, caller@, now, token_id, r),
            !(r matches Ok(Ok(_))) ==> *final(self) == *old(self),
    {
        if let Err(e) = self.is_custodian(caller) {
            return Err(e);
        }
        if !self.tokens.contains_key(&token_id) {
            return Ok(Err(NftError::TokenNotFound));
        }
        let ghost pre = self@;
        match self.tokens.remove(&token_id) {
            Some(mut token) => {
                token.metadata.is_burned = true;
                token.metadata.burned_at = Some(now);
                token.metadata.burned_by = Some(caller.duplicate());
                token.metadata.owner = Identity::anonymous();
                self.tokens.insert(token_id, token);
            },
            None => {},
        }
        self.stats.total_supply = self.stats.total_supply.wrapping_sub(1);
        proof {
            assert(self@.tokens =~= pre.tokens.insert(token_id, self@.tokens[token_id]));
            assert forall|k: Seq<u8>, j: int|
                self@.owners.contains_key(k) && 0 <= j < self@.owners[k].len() implies {
                    let t = #[trigger] self@.owners[k][j];
                    &&& self@.tokens.contains_key(t)
                    &&& (self@.tokens[t].metadata.owner@ == k || self@.tokens[t].metadata.is_burned)
                } by {
                assert(pre.owners[k][j] == self@.owners[k][j]);
            }
        }
        Ok(Ok(()))
    }

    /// The metadata record of a token.
    pub fn get_token_metadata(&self, token_id: u64) -> (r: Result<&TokenMetaData, NftError>)
        requires
            self.wf(),
        ensures
            match r {
                Ok(m) => self@.tokens.contains_key(token_id) && *m == self@.tokens[token_id].metadata,
                Err(e) => !self@.tokens.contains_key(token_id) && e == NftError::TokenNotFound,
            },
    {
        match self.tokens.get(&token_id) {
            Some(token) => Ok(&token.metadata),
            None => Err(NftError::TokenNotFound),
        }
    }

    /// The asset payload of a token.
    pub fn get_token_data(&self, token_id: u64) -> (r: Result<&TokenData, NftError>)
        requires
            self.wf(),
        ensures
            match r {
                Ok(d) => self@.tokens.contains_key(token_id) && *d == self@.tokens[token_id].data,
                Err(e) => !self@.tokens.contains_key(token_id) && e == NftError::TokenNotFound,
            },
    {
        match self.tokens.get(&token_id) {
            Some(token) => Ok(&token.data),
            None => Err(NftError::TokenNotFound),
        }
    }

    /// The current owner of a token; the anonymous identity once burned.
    pub fn get_token_owner(&self, token_id: u64) -> (r: Result<Identity, NftError>)
        requires
            self.wf(),
        ensures
            match r {
                Ok(o) => self@.tokens.contains_key(token_id) && o@
                    == self@.tokens[token_id].metadata.owner@,
                Err(e) => !self@.tokens.contains_key(token_id) && e == NftError::TokenNotFound,
            },
    {
        match self.tokens.get(&token_id) {
            Some(token) => Ok(token.metadata.owner.duplicate()),
            None => Err(NftError::TokenNotFound),
        }
    }

    /// How many identifiers `user`'s index entry holds, burned ones
    /// included. Fails for an identity that never received a token.
    pub fn get_user_token_count(&self, user: &Identity) -> (r: Result<u64, NftError>)
        requires
            self.wf(),
        ensures
            match r {
                Ok(n) => {
                    &&& self@.owners.contains_key(user@)
                    &&& n == self@.owners[user@].len()
                    &&& n == self@.owners[user@].to_set().len()
                },
                Err(e) => !self@.owners.contains_key(user@) && e == NftError::OwnerNotFound,
            },
    {
        match self.find_owner(user) {
            Some(i) => {
                proof {
                    self.owners@[i as int].tokens@.unique_seq_to_set();
                }
                Ok(self.owners[i].tokens.len() as u64)
            },
            None => Err(NftError::OwnerNotFound),
        }
    }

    /// The identifiers `user` ever received, in order of minting.
    pub fn get_tokens_by_owner(&self, user: &Identity) -> (r: Result<Vec<u64>, NftError>)
        requires
            self.wf(),
        ensures
            match r {
                Ok(v) => self@.owners.contains_key(user@) && v@ == self@.owners[user@],
                Err(e) => !self@.owners.contains_key(user@) && e == NftError::OwnerNotFound,
            },
    {
        match self.find_owner(user) {
            Some(i) => {
                let v = self.owners[i].tokens.clone();
                assert(v@ =~= self.owners@[i as int].tokens@);
                Ok(v)
            },
            None => Err(NftError::OwnerNotFound),
        }
    }

    /// The metadata of every token in `user`'s index entry, in index order.
    /// Identifiers missing from the token table would be skipped; the
    /// ledger's consistency rules out that there are any.
    pub fn get_tokens_metadata_by_owner(&self, user: &Identity) -> (r: Result<
        Vec<&TokenMetaData>,
        NftError,
    >)
        requires
            self.wf(),
        ensures
            match r {
                Ok(v) => {
                    &&& self@.owners.contains_key(user@)
                    &&& v@.len() == self@.owners[user@].len()
                    &&& forall|i: int|
                        0 <= i < v@.len() ==> *v@[i]
                            == self@.tokens[#[trigger] self@.owners[user@][i]].metadata
                },
                Err(e) => !self@.owners.contains_key(user@) && e == NftError::OwnerNotFound,
            },
    {
        match self.find_owner(user) {
            Some(k) => {
                let ids = &self.owners[k].tokens;
                let ghost key = user@;
                assert(ids@ == self@.owners[key]);
                let mut v: Vec<&TokenMetaData> = Vec::new();
                let mut i: usize = 0;
                while i < ids.len()
                    invariant
                        self.wf(),
                        self@.owners.contains_key(key),
                        ids@ == self@.owners[key],
                        0 <= i <= ids@.len(),
                        v@.len() == i,
                        forall|j: int|
                            0 <= j < i ==> *v@[j] == self@.tokens[#[trigger] ids@[j]].metadata,
                    decreases ids@.len() - i,
                {
                    assert(self@.tokens.contains_key(self@.owners[key][i as int]));
                    match self.tokens.get(&ids[i]) {
                        Some(token) => v.push(&token.metadata),
                        None => {},
                    }
                    i = i + 1;
                }
                Ok(v)
            },
            None => Err(NftError::OwnerNotFound),
        }
    }

    /// All registry metadata.
    pub fn get_canister_metadata(&self) -> (r: &CanisterMetaData)
        ensures
            *r == self@.registry,
    {
        &self.metadata
    }

    /// The statistics counters.
    pub fn get_canister_stats(&self) -> (r: Stats)
        ensures
            r == self@.stats,
    {
        self.stats
    }

    /// The registry logo.
    pub fn get_canister_logo(&self) -> (r: Option<String>)
        ensures
            r == self@.registry.logo,
    {
        match &self.metadata.logo {
            Some(v) => Some(v.clone()),
            None => None,
        }
    }

    /// Replaces the registry logo. Custodians only.
    pub fn set_canister_logo(&mut self, caller: &Identity, logo: Option<String>) -> (r: Result<
        (),
        CanisterError,
    >)
        requires
            old(self).wf(),
        ensures
            final(self).wf(),
            if old(self)@.is_custodian(caller@) {
                &&& r == Ok::<(), CanisterError>(())
                &&& final(self)@ == (LedgerState {
                    registry: (CanisterMetaData { logo, ..old(self)@.registry }),
                    ..old(self)@
                })
            } else {
                r == Err::<(), CanisterError>(CanisterError::NotCustodian) && *final(self)
                    == *old(self)
            },
    {
        if let Err(e) = self.is_custodian(caller) {
            return Err(e);
        }
        self.metadata.logo = logo;
        Ok(())
    }

    /// The registry name.
    pub fn get_canister_name(&self) -> (r: Option<String>)
        ensures
            r == self@.registry.name,
    {
        match &self.metadata.name {
            Some(v) => Some(v.clone()),
            None => None,
        }
    }

    /// Replaces the registry name. Custodians only.
    pub fn set_canister_name(&mut self, caller: &Identity, name: Option<String>) -> (r: Result<
        (),
        CanisterError,
    >)
        requires
            old(self).wf(),
        ensures
            final(self).wf(),
            if old(self)@.is_custodian(caller@) {
                &&& r == Ok::<(), CanisterError>(())
                &&& final(self)@ == (LedgerState {
                    registry: (CanisterMetaData { name, ..old(self)@.registry }),
                    ..old(self)@
                })
            } else {
                r == Err::<(), CanisterError>(CanisterError::NotCustodian) && *final(self)
                    == *old(self)
            },
    {
        if let Err(e) = self.is_custodian(caller) {
            return Err(e);
        }
        self.metadata.name = name;
        Ok(())
    }

    /// The registry symbol.
    pub fn get_canister_symbol(&self) -> (r: Option<String>)
        ensures
            r == self@.registry.symbol,
    {
        match &self.metadata.symbol {
            Some(v) => Some(v.clone()),
            None => None,
        }
    }

    /// Replaces the registry symbol. Custodians only.
    pub fn set_canister_symbol(&mut self, caller: &Identity, symbol: Option<String>) -> (r: Result<
        (),
        CanisterError,
    >)
        requires
            old(self).wf(),
        ensures
            final(self).wf(),
            if old(self)@.is_custodian(caller@) {
                &&& r == Ok::<(), CanisterError>(())
                &&& final(self)@ == (LedgerState {
                    registry: (CanisterMetaData { symbol, ..old(self)@.registry }),
                    ..old(self)@
                })
            } else {
                r == Err::<(), CanisterError>(CanisterError::NotCustodian) && *final(self)
                    == *old(self)
            },
    {
        if let Err(e) = self.is_custodian(caller) {
            return Err(e);
        }
        self.metadata.symbol = symbol;
        Ok(())
    }

    /// The custodians, in the order they were given.
    pub fn get_canister_custodians(&self) -> (r: Vec<Identity>)
        ensures
            r@.len() == self@.registry.custodians@.len(),
            forall|i: int| 0 <= i < r@.len() ==> #[trigger] r@[i]@ == self@.registry.custodians@[i]@,
            r@.map_values(|c: Identity| c@) == self@.registry.custodians@.map_values(|c: Identity| c@),
    {
        let cs = &self.metadata.custodians;
        let mut r: Vec<Identity> = Vec::new();
        let mut i: usize = 0;
        while i < cs.len()
            invariant
                cs == &self.metadata.custodians,
                0 <= i <= cs@.len(),
                r@.len() == i,
                forall|j: int| 0 <= j < i ==> #[trigger] r@[j]@ == cs@[j]@,
            decreases cs@.len() - i,
        {
            r.push(cs[i].duplicate());
            i = i + 1;
        }
        assert(r@.map_values(|c: Identity| c@) =~= cs@.map_values(|c: Identity| c@));
        r
    }

    /// Replaces the registry custodian list; the set it holds becomes the guard's. Custodians only.
    pub fn set_canister_custodians(&mut self, caller: &Identity, custodians: Vec<Identity>) -> (r: Result<
        (),
        CanisterError,
    >)
        requires
            old(self).wf(),
        ensures
            final(self).wf(),
            if old(self)@.is_custodian(caller@) {
                &&& r == Ok::<(), CanisterError>(())
                &&& final(self)@ == (LedgerState {
                    registry: (CanisterMetaData { custodians, ..old(self)@.registry }),
                    ..old(self)@
                })
            } else {
                r == Err::<(), CanisterError>(CanisterError::NotCustodian) && *final(self)
                    == *old(self)
            },
    {
        if let Err(e) = self.is_custodian(caller) {
            return Err(e);
        }
        self.metadata.custodians = custodians;
        Ok(())
    }

    /// The cycles counter.
    pub fn get_canister_cycles(&self) -> (r: u64)
        ensures
            r == self@.stats.cycles,
    {
        self.stats.cycles
    }

    /// How many distinct identities ever received a token.
    pub fn get_total_unique_holders(&self) -> (r: u64)
        requires
            self.wf(),
        ensures
            r == self@.stats.total_unique_holders,
            r == self@.owners.dom().len(),
    {
        proof {
            self.lemma_holders_count();
        }
        self.stats.total_unique_holders
    }

    /// The supply counter: mints less burns, modulo 2^64.
    pub fn get_canister_supply(&self) -> (r: u64)
        ensures
            r == self@.stats.total_supply,
    {
        self.stats.total_supply
    }

    /// Every ledger keeps its token table and ownership index consistent,
    /// and counts one holder per identity in the index.
    pub proof fn lemma_consistent(&self)
        requires
            self.wf(),
        ensures
            self@.inv(),
            self@.stats.total_unique_holders == self@.owners.dom().len(),
    {
        self.lemma_holders_count();
    }

    /// One ownership entry per identity in the index.
    proof fn lemma_holders_count(&self)
        requires
            self.wf(),
        ensures
            self@.owners.dom().len() == self.owners@.len(),
    {
        let keys = self.owners@.map_values(|e: OwnerEntry| e.owner@);
        assert forall|i: int, j: int|
            0 <= i < keys.len() && 0 <= j < keys.len() && i != j implies keys[i] != keys[j] by {
            if i < j {
                assert(self.owners@[i].owner@ != self.owners@[j].owner@);
            } else {
                assert(self.owners@[j].owner@ != self.owners@[i].owner@);
            }
        }
        assert(keys.to_set() =~= self.index@.dom()) by {
            assert forall|k: Seq<u8>| self.index@.contains_key(k) implies keys.contains(k) by {
                let i = choose|i: int| 0 <= i < self.owners@.len() && #[trigger] self.owners@[i].owner@ == k;
                assert(keys[i] == k);
            }
            assert forall|k: Seq<u8>| keys.contains(k) implies self.index@.contains_key(k) by {
                let i = choose|i: int| 0 <= i < keys.len() && keys[i] == k;
                assert(self.index@.contains_key(self.owners@[i].owner@));
            }
        }
        keys.unique_seq_to_set();
    }

    /// The custodian guard: succeeds exactly when `caller` is a custodian.
    pub fn is_custodian(&self, caller: &Identity) -> (r: Result<(), CanisterError>)
        ensures
            r == if self@.is_custodian(caller@) {
                Ok::<(), CanisterError>(())
            } else {
                Err(CanisterError::NotCustodian)
            },
    {
        let cs = &self.metadata.custodians;
        let ghost s = cs@.map_values(|c: Identity| c@);
        let mut i: usize = 0;
        while i < cs.len()
            invariant
                0 <= i <= cs@.len(),
                s == cs@.map_values(|c: Identity| c@),
                cs == &self.metadata.custodians,
                forall|j: int| 0 <= j < i ==> s[j] != caller@,
            decreases cs@.len() - i,
        {
            if cs[i].same_as(caller) {
                assert(s[i as int] == caller@);
                assert(s.contains(caller@));
                return Ok(());
            }
            i = i + 1;
        }
        assert(!s.contains(caller@));
        Err(CanisterError::NotCustodian)
    }
}

} // verus!
