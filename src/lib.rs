//! Ledger core of a non-fungible token registry: the token table, the
//! ownership index, registry metadata guarded by a custodian set, and the
//! statistics kept alongside them.

mod error;
mod identity;
pub mod laws;
mod ledger;
mod value;

pub use error::{CanisterError, NftError};
pub use identity::{anonymous_bytes, Identity};
pub use ledger::{wrap_dec, wrap_inc, CanisterMetaData, InitArguments, Ledger, LedgerState, Stats};
pub use value::{DataType, GenericValue, Token, TokenData, TokenMetaData};
