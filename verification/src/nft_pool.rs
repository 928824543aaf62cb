//! A non-fungible token held by an asset as collateral.

use crate::utils::{AccountId, NFTTokenId, Timestamp};
use vstd::prelude::*;

verus! {

/// One non-fungible token in an asset's pool, with the account that put it
/// there.
#[derive(Debug)]
pub struct NftPool {
    pub owner_id: AccountId,
    pub token_id: NFTTokenId,
    pub deposit_timestamp: Timestamp,
}

impl Clone for NftPool {
    fn clone(&self) -> (r: Self)
        ensures
            r == *self,
    {
        NftPool {
            owner_id: self.owner_id.clone(),
            token_id: self.token_id.clone(),
            deposit_timestamp: self.deposit_timestamp,
        }
    }
}

impl NftPool {
    /// The entry that stands for no token: it is named "0", belongs to
    /// `owner_id` and bears the time `timestamp`.
    pub fn new(owner_id: AccountId, timestamp: Timestamp) -> (r: NftPool)
        ensures
            r.owner_id == owner_id,
            r.token_id@ == "0"@,
            r.deposit_timestamp == timestamp,
    {
        NftPool { owner_id, token_id: String::from_str("0"), deposit_timestamp: timestamp }
    }
}

/// Whether some token of the pool has the name.
pub open spec fn holds_token(pool: Seq<NftPool>, token_id: Seq<char>) -> bool {
    exists|i: int| 0 <= i < pool.len() && (#[trigger] pool[i]).token_id@ == token_id
}

/// The first place in the pool of a token with the name.
pub open spec fn token_position(pool: Seq<NftPool>, token_id: Seq<char>) -> int
    decreases pool.len(),
{
    if pool.len() == 0 {
        0
    } else if pool[0].token_id@ == token_id {
        0
    } else {
        1 + token_position(pool.drop_first(), token_id)
    }
}

/// The place returned for a held token is the first that holds it.
pub proof fn lemma_token_position(pool: Seq<NftPool>, token_id: Seq<char>)
    ensures
        0 <= token_position(pool, token_id) <= pool.len(),
        forall|j: int|
            0 <= j < token_position(pool, token_id) ==> (#[trigger] pool[j]).token_id@
                != token_id,
        token_position(pool, token_id) < pool.len() ==> pool[token_position(
            pool,
            token_id,
        )].token_id@ == token_id,
        holds_token(pool, token_id) <==> token_position(pool, token_id) < pool.len(),
    decreases pool.len(),
{
    if pool.len() > 0 && pool[0].token_id@ != token_id {
        let rest = pool.drop_first();
        lemma_token_position(rest, token_id);
        let p = token_position(pool, token_id);
        assert forall|j: int| 0 <= j < p implies (#[trigger] pool[j]).token_id@ != token_id by {
            if j > 0 {
                assert(rest[j - 1].token_id@ != token_id);
            }
        }
        if p < pool.len() {
            assert(pool[p] == rest[p - 1]);
        }
        if holds_token(pool, token_id) {
            let i = choose|i: int| 0 <= i < pool.len() && (#[trigger] pool[i]).token_id@ == token_id;
            assert(rest[i - 1].token_id@ == token_id);
        }
        if holds_token(rest, token_id) {
            let i = choose|i: int| 0 <= i < rest.len() && (#[trigger] rest[i]).token_id@ == token_id;
            assert(pool[i + 1].token_id@ == token_id);
        }
    } else if pool.len() > 0 {
        assert(pool[0].token_id@ == token_id);
    }
}

} // verus!
