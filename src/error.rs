use vstd::prelude::*;

verus! {

/// Failure of the custodian guard.
#[derive(Clone, Debug, PartialEq, Eq)]
pub enum CanisterError {
    NotCustodian,
}

impl CanisterError {
    /// The human-readable text that callers receive.
    pub fn message(&self) -> (r: String)
        ensures
            r@ == "You are not a custodian in this canister"@,
    {
        match self {
            CanisterError::NotCustodian => "You are not a custodian in this canister".to_string(),
        }
    }
}

/// Failures of the token registry. Only `TokenNotFound`, `OwnerNotFound`
/// and `ExistedNFT` arise from the operations here; the others are kept for
/// transfer and approval operations that the registry does not offer.
#[derive(Clone, Debug, PartialEq, Eq)]
pub enum NftError {
    SelfTransfer,
    TokenNotFound,
    TxNotFound,
    SelfApprove,
    OperatorNotFound,
    UnauthorizedOwner,
    UnauthorizedOperator,
    ExistedNFT,
    OwnerNotFound,
    Other(String),
}

} // verus!
