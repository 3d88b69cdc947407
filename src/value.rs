use vstd::prelude::*;

use crate::identity::{anonymous_bytes, Identity};

verus! {

/// How the asset bytes of a token are to be read.
#[derive(Clone, Copy, Debug, PartialEq, Eq, Structural)]
pub enum DataType {
    Link,
    Raw,
}

/// The asset payload of a token, fixed at mint.
#[derive(Clone, Debug)]
pub struct TokenData {
    pub bytes: Vec<u8>,
    pub data_type: DataType,
}

/// A property value attached to a token. Arbitrary-precision integers are
/// held as their decimal text, and a float as its IEEE-754 bit pattern.
#[derive(Debug)]
pub enum GenericValue {
    BoolContent(bool),
    TextContent(String),
    BlobContent(Vec<u8>),
    Principal(Identity),
    Nat8Content(u8),
    Nat16Content(u16),
    Nat32Content(u32),
    Nat64Content(u64),
    NatContent(String),
    Int8Content(i8),
    Int16Content(i16),
    Int32Content(i32),
    Int64Content(i64),
    IntContent(String),
    FloatContent(u64),
    NestedContent(Vec<(String, GenericValue)>),
}

/// Ownership and lifecycle record of a token.
#[derive(Debug)]
pub struct TokenMetaData {
    pub owner: Identity,
    pub is_burned: bool,
    pub properties: Vec<(String, GenericValue)>,
    pub burned_at: Option<u64>,
    pub burned_by: Option<Identity>,
    pub minted_at: u64,
    pub minted_by: Identity,
}

/// One registry record.
#[derive(Debug)]
pub struct Token {
    pub metadata: TokenMetaData,
    pub data: TokenData,
}

impl TokenMetaData {
    /// Burned exactly when the burn time and burner are recorded, and a
    /// burned token belongs to the anonymous identity.
    pub open spec fn wf(&self) -> bool {
        &&& self.is_burned <==> (self.burned_at is Some && self.burned_by is Some)
        &&& self.is_burned ==> self.owner@ == anonymous_bytes()
    }

    /// A record as it stands right after minting to `owner` at `now`.
    pub open spec fn is_fresh(
        &self,
        owner: Seq<u8>,
        properties: Option<Vec<(String, GenericValue)>>,
        now: u64,
    ) -> bool {
        &&& self.owner@ == owner
        &&& !self.is_burned
        &&& match properties {
            Some(p) => self.properties == p,
            None => self.properties@.len() == 0,
        }
        &&& self.burned_at is None
        &&& self.burned_by is None
        &&& self.minted_at == now
        &&& self.minted_by@ == owner
    }

    /// `self` is `before` burned by `caller` at `now`: the owner becomes the
    /// anonymous identity and the mint record and properties stay.
    pub open spec fn is_burn_of(&self, before: TokenMetaData, caller: Seq<u8>, now: u64) -> bool {
        &&& self.owner@ == anonymous_bytes()
        &&& self.is_burned
        &&& self.properties == before.properties
        &&& self.burned_at == Some(now)
        &&& self.burned_by is Some && self.burned_by->Some_0@ == caller
        &&& self.minted_at == before.minted_at
        &&& self.minted_by == before.minted_by
    }

    pub fn new(owner: Identity, properties: Option<Vec<(String, GenericValue)>>, now: u64) -> (r:
        TokenMetaData)
        ensures
            r.is_fresh(owner@, properties, now),
            r.wf(),
    {
        let minted_by = owner.duplicate();
        let properties = match properties {
            Some(p) => p,
            None => Vec::new(),
        };
        TokenMetaData {
            owner,
            is_burned: false,
            properties,
            burned_at: None,
            burned_by: None,
            minted_at: now,
            minted_by,
        }
    }
}

} // verus!
