use vstd::prelude::*;

use vstd::arithmetic::div_mod::{lemma_add_mod_noop, lemma_small_mod, lemma_sub_mod_noop};

use crate::error::{CanisterError, NftError};
use crate::identity::anonymous_bytes;
use crate::ledger::{wrap_dec, wrap_inc, LedgerState};
use crate::value::{GenericValue, TokenData};

verus! {

/// 2^64, the modulus of the supply counter.
pub open spec fn word() -> int {
    0x1_0000_0000_0000_0000
}

/// One recorded call of a token command, with the result it gave.
pub enum TokenCall {
    Mint {
        caller: Seq<u8>,
        now: u64,
        user: Seq<u8>,
        token_id: Option<u64>,
        data: TokenData,
        properties: Option<Vec<(String, GenericValue)>>,
        r: Result<Result<u64, NftError>, CanisterError>,
    },
    Burn { caller: Seq<u8>, now: u64, token_id: u64, r: Result<Result<(), NftError>, CanisterError> },
}

impl TokenCall {
    pub open spec fn caller(self) -> Seq<u8> {
        match self {
            TokenCall::Mint { caller, .. } => caller,
            TokenCall::Burn { caller, .. } => caller,
        }
    }

    /// `post` and the recorded result are what the call gives from `pre`.
    pub open spec fn step(self, pre: LedgerState, post: LedgerState) -> bool {
        match self {
            TokenCall::Mint { caller, now, user, token_id, data, properties, r } => pre.mint_step(
                post,
                caller,
                now,
                user,
                token_id,
                data,
                properties,
                r,
            ),
            TokenCall::Burn { caller, now, token_id, r } => pre.burn_step(
                post,
                caller,
                now,
                token_id,
                r,
            ),
        }
    }

    pub open spec fn is_denied(self) -> bool {
        match self {
            TokenCall::Mint { r, .. } => r == Err::<Result<u64, NftError>, CanisterError>(
                CanisterError::NotCustodian,
            ),
            TokenCall::Burn { r, .. } => r == Err::<Result<(), NftError>, CanisterError>(
                CanisterError::NotCustodian,
            ),
        }
    }

    pub open spec fn minted(self) -> bool {
        self matches TokenCall::Mint { r: Ok(Ok(_)), .. }
    }

    pub open spec fn burned(self) -> bool {
        self matches TokenCall::Burn { r: Ok(Ok(_)), .. }
    }
}

/// `states` are the ledger states before, between and after `calls`.
pub open spec fn is_run(states: Seq<LedgerState>, calls: Seq<TokenCall>) -> bool {
    &&& states.len() == calls.len() + 1
    &&& forall|i: int| 0 <= i < calls.len() ==> #[trigger] calls[i].step(states[i], states[i + 1])
}

/// How many of `calls` minted a token.
pub open spec fn count_mints(calls: Seq<TokenCall>) -> int
    decreases calls.len(),
{
    if calls.len() == 0 {
        0
    } else {
        count_mints(calls.drop_last()) + if calls.last().minted() {
            1int
        } else {
            0
        }
    }
}

/// How many of `calls` burned a token.
pub open spec fn count_burns(calls: Seq<TokenCall>) -> int
    decreases calls.len(),
{
    if calls.len() == 0 {
        0
    } else {
        count_burns(calls.drop_last()) + if calls.last().burned() {
            1int
        } else {
            0
        }
    }
}

/// A successful mint returns an identifier that was absent before the call
/// and is present after it.
pub proof fn lemma_mint_id_fresh(call: TokenCall, pre: LedgerState, post: LedgerState, id: u64)
    requires
        call.step(pre, post),
        call matches TokenCall::Mint { r: Ok(Ok(i)), .. } && i == id,
    ensures
        !pre.tokens.contains_key(id),
        post.tokens.contains_key(id),
{
}

/// No token command removes a token record.
pub proof fn lemma_call_keeps_tokens(call: TokenCall, pre: LedgerState, post: LedgerState)
    requires
        call.step(pre, post),
    ensures
        pre.tokens.dom().subset_of(post.tokens.dom()),
{
}

/// Token records persist along a run.
pub proof fn lemma_run_keeps_tokens(states: Seq<LedgerState>, calls: Seq<TokenCall>, i: int, j: int)
    requires
        is_run(states, calls),
        0 <= i <= j < states.len(),
    ensures
        states[i].tokens.dom().subset_of(states[j].tokens.dom()),
    decreases j - i,
{
    if i < j {
        lemma_run_keeps_tokens(states, calls, i, j - 1);
        assert(calls[j - 1].step(states[j - 1], states[(j - 1) + 1]));
        lemma_call_keeps_tokens(calls[j - 1], states[j - 1], states[j]);
    }
}

/// Two successful mints of one run never return the same identifier.
pub proof fn lemma_minted_ids_distinct(
    states: Seq<LedgerState>,
    calls: Seq<TokenCall>,
    i: int,
    j: int,
    a: u64,
    b: u64,
)
    requires
        is_run(states, calls),
        0 <= i < j < calls.len(),
        calls[i] matches TokenCall::Mint { r: Ok(Ok(x)), .. } && x == a,
        calls[j] matches TokenCall::Mint { r: Ok(Ok(y)), .. } && y == b,
    ensures
        a != b,
{
    assert(calls[i].step(states[i], states[i + 1]));
    assert(calls[j].step(states[j], states[j + 1]));
    lemma_mint_id_fresh(calls[i], states[i], states[i + 1], a);
    lemma_mint_id_fresh(calls[j], states[j], states[j + 1], b);
    lemma_run_keeps_tokens(states, calls, i + 1, j);
}

/// A custodian's mint without an explicit identifier asks for the supply
/// plus one, and fails with `ExistedNFT` rather than pick another when that
/// identifier is taken.
pub proof fn lemma_auto_id(
    pre: LedgerState,
    post: LedgerState,
    caller: Seq<u8>,
    now: u64,
    user: Seq<u8>,
    data: TokenData,
    properties: Option<Vec<(String, GenericValue)>>,
    r: Result<Result<u64, NftError>, CanisterError>,
)
    requires
        pre.mint_step(post, caller, now, user, None, data, properties, r),
        pre.is_custodian(caller),
        pre.stats.total_supply < u64::MAX,
    ensures
        pre.tokens.contains_key((pre.stats.total_supply + 1) as u64) ==> r == Ok::<
            Result<u64, NftError>,
            CanisterError,
        >(Err(NftError::ExistedNFT)) && post == pre,
        !pre.tokens.contains_key((pre.stats.total_supply + 1) as u64) ==> r == Ok::<
            Result<u64, NftError>,
            CanisterError,
        >(Ok((pre.stats.total_supply + 1) as u64)),
{
}

/// A token command by a non-custodian is refused with `NotCustodian` and
/// leaves the state as it was.
pub proof fn lemma_guard(call: TokenCall, pre: LedgerState, post: LedgerState)
    requires
        call.step(pre, post),
        !pre.is_custodian(call.caller()),
    ensures
        call.is_denied(),
        post == pre,
{
}

/// After a successful burn the token belongs to the anonymous identity and
/// is marked burned; burning it again by a custodian succeeds, keeps it so,
/// and lowers the supply once more.
pub proof fn lemma_burn_terminal(
    s0: LedgerState,
    s1: LedgerState,
    s2: LedgerState,
    id: u64,
    first: TokenCall,
    second: TokenCall,
)
    requires
        first.step(s0, s1),
        first matches TokenCall::Burn { token_id, r: Ok(Ok(_)), .. } && token_id == id,
        second.step(s1, s2),
        second matches TokenCall::Burn { token_id, .. } && token_id == id,
        s1.is_custodian(second.caller()),
    ensures
        s1.tokens.contains_key(id),
        s1.tokens[id].metadata.owner@ == anonymous_bytes(),
        s1.tokens[id].metadata.is_burned,
        second.burned(),
        s2.tokens[id].metadata.owner@ == anonymous_bytes(),
        s2.tokens[id].metadata.is_burned,
        s2.stats.total_supply == wrap_dec(s1.stats.total_supply),
{
}

/// Burning leaves every identity's index entry as it was.
pub proof fn lemma_burn_keeps_index(call: TokenCall, pre: LedgerState, post: LedgerState)
    requires
        call.step(pre, post),
        call matches TokenCall::Burn { .. },
    ensures
        post.owners == pre.owners,
{
}

proof fn lemma_wrap_mod(a: int)
    ensures
        wrap_inc((a % word()) as u64) == (a + 1) % word(),
        wrap_dec((a % word()) as u64) == (a - 1) % word(),
{
    let q = a % word();
    lemma_add_mod_noop(a, 1, word());
    lemma_sub_mod_noop(a, 1, word());
    lemma_small_mod(1, word() as nat);
    if q + 1 < word() {
        lemma_small_mod((q + 1) as nat, word() as nat);
    }
    if q >= 1 {
        lemma_small_mod((q - 1) as nat, word() as nat);
    }
}

/// Along a run the supply counter moves by the successful mints less the
/// successful burns, modulo 2^64.
pub proof fn lemma_supply_accounting(states: Seq<LedgerState>, calls: Seq<TokenCall>)
    requires
        is_run(states, calls),
    ensures
        states.last().stats.total_supply == (states[0].stats.total_supply + count_mints(calls)
            - count_burns(calls)) % word(),
    decreases calls.len(),
{
    let s0 = states[0].stats.total_supply as int;
    if calls.len() == 0 {
        lemma_small_mod(s0 as nat, word() as nat);
    } else {
        let n = calls.len() - 1;
        let prefix = states.drop_last();
        assert(is_run(prefix, calls.drop_last())) by {
            assert forall|i: int| 0 <= i < calls.drop_last().len() implies #[trigger] calls.drop_last()[i].step(
                prefix[i],
                prefix[i + 1],
            ) by {
                assert(calls[i].step(states[i], states[i + 1]));
            }
        }
        lemma_supply_accounting(prefix, calls.drop_last());
        let a = s0 + count_mints(calls.drop_last()) - count_burns(calls.drop_last());
        assert(prefix.last() == states[n]);
        assert(calls[n].step(states[n], states[n + 1]));
        lemma_wrap_mod(a);
        lemma_small_mod(states[n].stats.total_supply as nat, word() as nat);
    }
}

} // verus!
