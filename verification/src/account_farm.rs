//! Farms: what an account is owed for holding a position.

use crate::big_decimal::BigDecimal;
use crate::pool::Balance;
use crate::str_map::{Entries, StrMap};
use crate::utils::{Timestamp, TokenId};
use vstd::prelude::*;

verus! {

/// The position that a farm rewards.
#[derive(Debug)]
pub enum FarmId {
    /// Supplying the token.
    Supplied(TokenId),
    /// Borrowing the token.
    Borrowed(TokenId),
    /// Supplying non-fungible tokens of the contract.
    SuppliedNFT(TokenId),
}

/// A farm identifier as the contracts see it.
pub enum FarmKey {
    Supplied(Seq<char>),
    Borrowed(Seq<char>),
    SuppliedNFT(Seq<char>),
}

impl View for FarmId {
    type V = FarmKey;

    open spec fn view(&self) -> FarmKey {
        match *self {
            FarmId::Supplied(t) => FarmKey::Supplied(t@),
            FarmId::Borrowed(t) => FarmKey::Borrowed(t@),
            FarmId::SuppliedNFT(t) => FarmKey::SuppliedNFT(t@),
        }
    }
}

/// The farms of a list as the contracts see them.
pub open spec fn farm_keys(farms: Seq<FarmId>) -> Seq<FarmKey> {
    Seq::new(farms.len(), |i: int| farms[i]@)
}

/// No farm is named twice.
pub open spec fn distinct_farms(farms: Seq<FarmKey>) -> bool {
    forall|i: int, j: int| 0 <= i < j < farms.len() ==> farms[i] != farms[j]
}

impl Clone for FarmId {
    fn clone(&self) -> (r: Self)
        ensures
            r == *self,
    {
        match self {
            FarmId::Supplied(t) => FarmId::Supplied(t.clone()),
            FarmId::Borrowed(t) => FarmId::Borrowed(t.clone()),
            FarmId::SuppliedNFT(t) => FarmId::SuppliedNFT(t.clone()),
        }
    }
}

impl PartialEq for FarmId {
    fn eq(&self, other: &FarmId) -> (r: bool) {
        match (self, other) {
            (FarmId::Supplied(x), FarmId::Supplied(y)) => *x == *y,
            (FarmId::Borrowed(x), FarmId::Borrowed(y)) => *x == *y,
            (FarmId::SuppliedNFT(x), FarmId::SuppliedNFT(y)) => *x == *y,
            _ => false,
        }
    }
}

impl vstd::std_specs::cmp::PartialEqSpecImpl for FarmId {
    open spec fn obeys_eq_spec() -> bool {
        true
    }

    open spec fn eq_spec(&self, other: &FarmId) -> bool {
        self@ == other@
    }
}

impl FarmId {
    /// The token, or the contract of non-fungible tokens, that the farm is
    /// about.
    pub fn get_token_id(&self) -> (r: &TokenId)
        ensures
            *r == (match *self {
                FarmId::Supplied(t) => t,
                FarmId::Borrowed(t) => t,
                FarmId::SuppliedNFT(t) => t,
            }),
    {
        match self {
            FarmId::Supplied(token_id) => token_id,
            FarmId::Borrowed(token_id) => token_id,
            FarmId::SuppliedNFT(token_id) => token_id,
        }
    }
}

/// What an account holds in one reward token of a farm.
#[derive(Clone, Copy, Debug)]
pub struct AccountFarmReward {
    /// The shares that earn, the booster's part included.
    pub boosted_shares: Balance,
    /// The farm's reward per share when the account last claimed.
    pub last_reward_per_share: BigDecimal,
}

/// What an account holds in one farm.
pub struct AccountFarm {
    /// When the account last claimed.
    pub block_timestamp: Timestamp,
    /// The account's state in each reward token.
    pub rewards: StrMap<AccountFarmReward>,
}

/// An account's farm as the contracts see it.
pub struct AccountFarmModel {
    pub block_timestamp: Timestamp,
    pub rewards: Entries<AccountFarmReward>,
}

impl View for AccountFarm {
    type V = AccountFarmModel;

    open spec fn view(&self) -> AccountFarmModel {
        AccountFarmModel { block_timestamp: self.block_timestamp, rewards: self.rewards@ }
    }
}

impl Clone for AccountFarm {
    fn clone(&self) -> (r: Self)
        ensures
            r@ == self@,
    {
        let rewards = self.rewards.clone();
        assert(rewards@ =~= self.rewards@);
        AccountFarm { block_timestamp: self.block_timestamp, rewards }
    }
}

impl AccountFarm {
    /// The state of an account that has never claimed.
    pub fn new() -> (r: AccountFarm)
        ensures
            r@ == (AccountFarmModel {
                block_timestamp: 0,
                rewards: Seq::<(Seq<char>, AccountFarmReward)>::empty(),
            }),
    {
        AccountFarm { block_timestamp: 0, rewards: StrMap::new() }
    }
}

impl Default for AccountFarm {
    fn default() -> (r: AccountFarm)
        ensures
            r@ == (AccountFarmModel {
                block_timestamp: 0,
                rewards: Seq::<(Seq<char>, AccountFarmReward)>::empty(),
            }),
    {
        AccountFarm::new()
    }
}

/// The stored form of an account's farm, by version.
pub enum VAccountFarm {
    Current(AccountFarm),
}

impl VAccountFarm {
    /// The farm in its current form.
    pub fn into_current(self) -> (r: AccountFarm)
        ensures
            r == self->Current_0,
    {
        match self {
            VAccountFarm::Current(c) => c,
        }
    }

    /// The stored form of a farm.
    pub fn from_current(c: AccountFarm) -> (r: VAccountFarm)
        ensures
            r == VAccountFarm::Current(c),
    {
        VAccountFarm::Current(c)
    }
}

/// One farm of an account.
pub struct AccountFarmEntry {
    pub farm_id: FarmId,
    pub farm: AccountFarm,
}

impl Clone for AccountFarmEntry {
    fn clone(&self) -> (r: Self)
        ensures
            r.farm_id == self.farm_id,
            r.farm@ == self.farm@,
    {
        AccountFarmEntry { farm_id: self.farm_id.clone(), farm: self.farm.clone() }
    }
}

/// The farms of an account as the contracts see them.
pub open spec fn farms_view(farms: Seq<AccountFarmEntry>) -> Seq<(FarmKey, AccountFarmModel)> {
    Seq::new(farms.len(), |i: int| (farms[i].farm_id@, farms[i].farm@))
}

} // verus!
