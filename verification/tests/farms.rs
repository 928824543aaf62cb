//! Farms and stakes on small numbers: what a farm pays, how an account is
//! weighed in it, and what a stake of booster tokens counts for.

use nearlend::account::Account;
use nearlend::account_farm::{AccountFarm, AccountFarmEntry, AccountFarmReward, FarmId};
use nearlend::account_nft_asset::AccountNFTAsset;
use nearlend::actions::NFT_BALANCE;
use nearlend::asset::Asset;
use nearlend::asset_config::AssetConfig;
use nearlend::asset_farm::{AssetFarm, AssetFarmReward, NANOS_PER_DAY};
use nearlend::big_decimal::{BigDecimal, BIG_DIVISOR};
use nearlend::booster_staking::{compute_x_booster_amount, extend_stake, BoosterStaking};
use nearlend::config::Config;
use nearlend::contract::Contract;
use nearlend::error::Error;
use nearlend::pool::{Pool, Shares};
use nearlend::str_map::StrMap;

const DAY: u64 = NANOS_PER_DAY as u64;
const SECOND: u64 = 1_000_000_000;

fn s(x: &str) -> String {
    x.to_string()
}

fn m(mantissa: u128) -> BigDecimal {
    BigDecimal::from_mantissa(mantissa)
}

/// Stakes last from 100 to 300 seconds, and the longest counts fourfold.
fn config() -> Config {
    Config {
        oracle_account_id: s("oracle"),
        owner_id: s("owner"),
        booster_token_id: s("booster"),
        booster_decimals: 2,
        max_num_assets: 10,
        maximum_recency_duration_sec: 90,
        maximum_staleness_duration_sec: 15,
        minimum_staking_duration_sec: 100,
        maximum_staking_duration_sec: 300,
        x_booster_multiplier_at_maximum_staking_duration: 40000,
        force_closing_enabled: true,
    }
}

fn asset_config() -> AssetConfig {
    AssetConfig {
        reserve_ratio: 2500,
        target_utilization: 8000,
        target_utilization_rate: 1000000000002440418605283556,
        max_utilization_rate: 1000000000039724853136740579,
        volatility_ratio: 5000,
        extra_decimals: 0,
        can_deposit: true,
        can_withdraw: true,
        can_use_as_collateral: true,
        can_borrow: true,
    }
}

/// A ledger at the time 1000 s with the assets "booster" and "dai".
fn ledger() -> Contract {
    let mut ledger = Contract::new(config(), 1000 * SECOND);
    ledger.internal_set_asset(&s("booster"), Asset::new(1000 * SECOND, asset_config())).unwrap();
    ledger.internal_set_asset(&s("dai"), Asset::new(1000 * SECOND, asset_config())).unwrap();
    ledger
}

fn reward(per_day: u128, log_base: u128, remaining: u128, shares: u128, per_share: u128) -> AssetFarmReward {
    AssetFarmReward {
        reward_per_day: per_day,
        booster_log_base: log_base,
        remaining_rewards: remaining,
        boosted_shares: shares,
        reward_per_share: m(per_share),
    }
}

fn held(shares: u128, per_share: u128) -> AccountFarmReward {
    AccountFarmReward { boosted_shares: shares, last_reward_per_share: m(per_share) }
}

#[test]
fn farm_pays_by_the_day() {
    let mut farm = AssetFarm::new(0);
    farm.rewards.insert(s("a"), reward(100, 0, 1000, 8, 0));
    farm.rewards.insert(s("idle"), reward(100, 0, 1000, 0, 0));

    // a day and a half: 150 for 8 shares
    assert_eq!(farm.update(DAY + DAY / 2, false), Ok(()));
    assert_eq!(farm.block_timestamp, DAY + DAY / 2);
    let a = *farm.rewards.get(&s("a")).unwrap();
    assert_eq!(a.remaining_rewards, 850);
    assert_eq!(a.reward_per_share, m(18_750_000_000_000_000_000_000_000_000));
    assert_eq!(a.boosted_shares, 8);
    // a reward that no share earns stands still
    assert_eq!(farm.rewards.get(&s("idle")).unwrap().remaining_rewards, 1000);
    assert_eq!(farm.rewards.get(&s("idle")).unwrap().reward_per_share, m(0));

    // parts of a unit are not paid
    assert_eq!(farm.update(DAY + DAY / 2 + DAY / 200, false), Ok(()));
    assert_eq!(farm.rewards.get(&s("a")).unwrap().remaining_rewards, 850);
    assert_eq!(farm.update(DAY + DAY / 2 + DAY / 200 + DAY / 100, false), Ok(()));
    assert_eq!(farm.rewards.get(&s("a")).unwrap().remaining_rewards, 849);

    // the same time again changes nothing, and time does not run backwards
    let before = farm.clone();
    assert_eq!(farm.update(before.block_timestamp, false), Ok(()));
    assert_eq!(farm.rewards.get(&s("a")).unwrap().remaining_rewards, 849);
    assert_eq!(farm.update(before.block_timestamp - 1, false), Err(Error::ClockWentBack));
    assert_eq!(farm.block_timestamp, before.block_timestamp);
}

#[test]
fn farm_stops_paying_what_has_run_out() {
    let mut farm = AssetFarm::new(0);
    farm.rewards.insert(s("a"), reward(100, 0, 250, 5, BIG_DIVISOR));
    farm.rewards.insert(s("b"), reward(1, 0, 250, 5, 0));

    // looked at after ten days, the reward has paid all and is still listed
    let mut seen = farm.clone();
    assert_eq!(seen.update(10 * DAY, true), Ok(()));
    assert_eq!(seen.rewards.len(), 2);
    assert_eq!(seen.rewards.get(&s("a")).unwrap().remaining_rewards, 0);
    assert_eq!(seen.rewards.get(&s("a")).unwrap().reward_per_share, m(51 * BIG_DIVISOR));
    assert_eq!(seen.inactive_rewards.len(), 0);

    // brought up to date, it is inactive
    assert_eq!(farm.update(10 * DAY, false), Ok(()));
    assert_eq!(farm.rewards.len(), 1);
    assert_eq!(farm.rewards.key_at(0), "b");
    assert_eq!(farm.rewards.get(&s("b")).unwrap().remaining_rewards, 240);
    let a = farm.internal_get_inactive_asset_farm_reward(&s("a")).unwrap();
    assert_eq!(a.remaining_rewards, 0);
    assert_eq!(a.reward_per_share, m(51 * BIG_DIVISOR));

    // a payment that no number can hold caps at what is left
    let mut farm = AssetFarm::new(0);
    farm.rewards.insert(s("a"), reward(u128::MAX, 0, 7, 7, 0));
    assert_eq!(farm.update(u64::MAX, false), Ok(()));
    assert_eq!(farm.inactive_rewards.get(&s("a")).unwrap().reward_per_share, m(BIG_DIVISOR));
}

#[test]
fn farm_rewards_are_added_and_revived() {
    let mut farm = AssetFarm::new(5);
    assert_eq!(farm.block_timestamp, 5);
    assert_eq!(farm.add_reward(&s("a"), 100, 20, 3000), Ok(()));
    let a = *farm.rewards.get(&s("a")).unwrap();
    assert_eq!((a.reward_per_day, a.booster_log_base, a.remaining_rewards), (100, 20, 3000));
    assert_eq!((a.boosted_shares, a.reward_per_share), (0, m(0)));

    // more of the same reward adds up, at the new rate
    assert_eq!(farm.add_reward(&s("a"), 7, 0, 50), Ok(()));
    let a = *farm.rewards.get(&s("a")).unwrap();
    assert_eq!((a.reward_per_day, a.booster_log_base, a.remaining_rewards), (7, 0, 3050));
    assert_eq!(farm.add_reward(&s("a"), 7, 0, u128::MAX), Err(Error::Overflow));
    assert_eq!(farm.rewards.get(&s("a")).unwrap().remaining_rewards, 3050);

    // an inactive reward is paid again, with its shares and its history
    farm.inactive_rewards.insert(s("old"), reward(1, 1, 0, 9, 4 * BIG_DIVISOR));
    assert_eq!(farm.add_reward(&s("old"), 2, 3, 10), Ok(()));
    assert!(farm.inactive_rewards.is_empty());
    assert_eq!(farm.rewards.key_at(1), "old");
    let old = *farm.rewards.get(&s("old")).unwrap();
    assert_eq!((old.reward_per_day, old.booster_log_base, old.remaining_rewards), (2, 3, 10));
    assert_eq!((old.boosted_shares, old.reward_per_share), (9, m(4 * BIG_DIVISOR)));
}

/// An account that supplies 10 "dai" and has claimed the rewards "a" and
/// "b" of the farm of those who do.
fn supplier() -> (Account, AccountFarm, AssetFarm) {
    let mut account = Account::new(&s("alice"));
    account.supplied.insert(s("dai"), Shares(10));
    let mut claimed = AccountFarm::new();
    claimed.block_timestamp = 77;
    claimed.rewards.insert(s("a"), held(4, BIG_DIVISOR));
    claimed.rewards.insert(s("b"), held(0, 0));
    let mut farm = AssetFarm::new(77);
    farm.rewards.insert(s("a"), reward(1, 0, 100, 30, BIG_DIVISOR));
    farm.rewards.insert(s("b"), reward(1, 20, 100, 0, 0));
    farm.inactive_rewards.insert(s("c"), reward(1, 0, 0, 9, 0));
    (account, claimed, farm)
}

#[test]
fn account_is_weighed_by_its_shares() {
    let ledger = ledger();
    let farm_id = FarmId::Supplied(s("dai"));
    let (mut account, claimed, mut farm) = supplier();
    let mut boosts = StrMap::new();
    boosts.insert(s("a"), 1000);
    boosts.insert(s("b"), 5);
    let inactive = vec![(s("c"), 2)];

    // without a stake the boosts do not count
    assert_eq!(
        ledger.internal_account_farm_settle(
            &mut account,
            &farm_id,
            claimed.clone(),
            &mut farm,
            &inactive,
            &boosts
        ),
        Ok(())
    );
    assert_eq!(farm.rewards.get(&s("a")).unwrap().boosted_shares, 30 - 4 + 10);
    assert_eq!(farm.rewards.get(&s("b")).unwrap().boosted_shares, 10);
    assert_eq!(farm.inactive_rewards.get(&s("c")).unwrap().boosted_shares, 7);
    assert_eq!(account.farms.len(), 1);
    assert_eq!(account.farms[0].farm_id, farm_id);
    assert_eq!(account.farms[0].farm.block_timestamp, 77);
    assert_eq!(account.farms[0].farm.rewards.get(&s("a")).unwrap().boosted_shares, 10);
    assert_eq!(account.farms[0].farm.rewards.get(&s("a")).unwrap().last_reward_per_share, m(BIG_DIVISOR));
    assert_eq!(account.farms[0].farm.rewards.get(&s("b")).unwrap().boosted_shares, 10);

    // with a stake of more than one token, the boost counts where the
    // reward has one
    account.booster_staking =
        Some(BoosterStaking { staked_booster_amount: 50, x_booster_amount: 101, unlock_timestamp: 0 });
    let again = account.farms[0].farm.clone();
    assert_eq!(
        ledger.internal_account_farm_settle(&mut account, &farm_id, again, &mut farm, &vec![], &boosts),
        Ok(())
    );
    assert_eq!(account.farms.len(), 1);
    assert_eq!(account.farms[0].farm.rewards.get(&s("a")).unwrap().boosted_shares, 10);
    assert_eq!(account.farms[0].farm.rewards.get(&s("b")).unwrap().boosted_shares, 15);
    assert_eq!(farm.rewards.get(&s("a")).unwrap().boosted_shares, 36);
    assert_eq!(farm.rewards.get(&s("b")).unwrap().boosted_shares, 15);

    // a stake of exactly one token does not count
    account.booster_staking =
        Some(BoosterStaking { staked_booster_amount: 50, x_booster_amount: 100, unlock_timestamp: 0 });
    let again = account.farms[0].farm.clone();
    assert_eq!(
        ledger.internal_account_farm_settle(&mut account, &farm_id, again, &mut farm, &vec![], &boosts),
        Ok(())
    );
    assert_eq!(farm.rewards.get(&s("b")).unwrap().boosted_shares, 10);

    // an account that has given up the position leaves the farm
    account.supplied.remove(&s("dai"));
    let again = account.farms[0].farm.clone();
    assert_eq!(
        ledger.internal_account_farm_settle(&mut account, &farm_id, again, &mut farm, &vec![], &boosts),
        Ok(())
    );
    assert!(account.farms.is_empty());
    assert_eq!(farm.rewards.get(&s("a")).unwrap().boosted_shares, 26);
    assert_eq!(farm.rewards.get(&s("b")).unwrap().boosted_shares, 0);
}

#[test]
fn weighing_that_fails_changes_nothing() {
    let ledger = ledger();
    let farm_id = FarmId::Supplied(s("dai"));
    let boosts = StrMap::new();

    // the account holds more shares of a reward than the farm knows of
    let (mut account, mut claimed, mut farm) = supplier();
    claimed.rewards.insert(s("a"), held(31, 0));
    assert_eq!(
        ledger.internal_account_farm_settle(&mut account, &farm_id, claimed, &mut farm, &vec![], &boosts),
        Err(Error::Overflow)
    );
    assert!(account.farms.is_empty());
    assert_eq!(farm.rewards.get(&s("a")).unwrap().boosted_shares, 30);

    // the account has not claimed a reward that the farm pays
    let (mut account, mut claimed, mut farm) = supplier();
    claimed.rewards.remove(&s("b"));
    assert_eq!(
        ledger.internal_account_farm_settle(&mut account, &farm_id, claimed, &mut farm, &vec![], &boosts),
        Err(Error::FarmRewardNotFound)
    );
    assert_eq!(farm.rewards.get(&s("a")).unwrap().boosted_shares, 30);

    // the farm does not know an inactive reward, or knows fewer shares of it
    let (mut account, claimed, mut farm) = supplier();
    assert_eq!(
        ledger.internal_account_farm_settle(
            &mut account,
            &farm_id,
            claimed.clone(),
            &mut farm,
            &vec![(s("d"), 1)],
            &boosts
        ),
        Err(Error::FarmRewardNotFound)
    );
    assert_eq!(
        ledger.internal_account_farm_settle(
            &mut account,
            &farm_id,
            claimed.clone(),
            &mut farm,
            &vec![(s("c"), 10)],
            &boosts
        ),
        Err(Error::Overflow)
    );
    assert_eq!(farm.rewards.get(&s("a")).unwrap().boosted_shares, 30);
    assert_eq!(farm.inactive_rewards.get(&s("c")).unwrap().boosted_shares, 9);

    // the new weight does not fit
    farm.rewards.insert(s("a"), reward(1, 0, 100, u128::MAX, 0));
    assert_eq!(
        ledger.internal_account_farm_settle(&mut account, &farm_id, claimed, &mut farm, &vec![], &boosts),
        Err(Error::Overflow)
    );
    assert!(account.farms.is_empty());
}

#[test]
fn shares_of_each_kind_of_farm() {
    let mut account = Account::new(&s("alice"));
    account.supplied.insert(s("dai"), Shares(10));
    account.borrowed.insert(s("dai"), Shares(3));
    for token in ["1", "2"] {
        account.nft_supplied.insert(
            format!("nft@{}", token),
            AccountNFTAsset { nft_contract_id: s("nft"), nft_token_id: s(token), deposit_timestamp: 0 },
        );
    }
    account.nft_supplied.insert(
        s("art@1"),
        AccountNFTAsset { nft_contract_id: s("art"), nft_token_id: s("1"), deposit_timestamp: 0 },
    );
    assert_eq!(account.get_farm_shares(&FarmId::Supplied(s("dai"))), 10);
    assert_eq!(account.get_farm_shares(&FarmId::Borrowed(s("dai"))), 3);
    assert_eq!(account.get_farm_shares(&FarmId::Supplied(s("nft"))), 0);
    assert_eq!(account.get_farm_shares(&FarmId::SuppliedNFT(s("nft"))), 2 * NFT_BALANCE);
    assert_eq!(account.get_nft_supplied_shares(&s("art")), Shares(NFT_BALANCE));
    assert_eq!(account.get_nft_supplied_shares(&s("dai")), Shares(0));
}

#[test]
fn account_farms_are_kept_by_their_names() {
    let mut account = Account::new(&s("alice"));
    let supplied = FarmId::Supplied(s("dai"));
    let borrowed = FarmId::Borrowed(s("dai"));
    assert_eq!(account.farm_place(&supplied), 0);
    let mut farm = AccountFarm::new();
    farm.block_timestamp = 1;
    account.internal_set_farm(&supplied, farm.clone());
    farm.block_timestamp = 2;
    account.internal_set_farm(&borrowed, farm.clone());
    farm.block_timestamp = 3;
    account.internal_set_farm(&supplied, farm.clone());
    assert_eq!(account.farms.len(), 2);
    assert_eq!(account.farm_place(&supplied), 0);
    assert_eq!(account.farm_place(&borrowed), 1);
    assert_eq!(account.farms[0].farm.block_timestamp, 3);
    assert_eq!(account.farm_or_default(&borrowed).block_timestamp, 2);
    account.internal_remove_farm(&supplied);
    assert_eq!(account.farms.len(), 1);
    assert_eq!(account.farms[0].farm_id, borrowed);
    account.internal_remove_farm(&supplied);
    assert_eq!(account.farms.len(), 1);
    assert_eq!(account.farm_place(&supplied), 1);
}

#[test]
fn claimed_rewards_add_up_and_mark_farms() {
    let mut account = Account::new(&s("alice"));
    account.add_affected_farm(FarmId::Supplied(s("a")));
    let mut due: StrMap<u128> = StrMap::new();
    due.insert(s("b"), 5);
    let added = account
        .internal_note_rewards(&mut due, &vec![(s("a"), 1), (s("b"), 2), (s("c"), 3), (s("c"), 4)])
        .unwrap();
    assert_eq!(added, vec![FarmId::Supplied(s("b")), FarmId::Supplied(s("c"))]);
    assert_eq!(
        account.affected_farms,
        vec![FarmId::Supplied(s("a")), FarmId::Supplied(s("b")), FarmId::Supplied(s("c"))]
    );
    assert_eq!((due.key_at(0).as_str(), *due.value_at(0)), ("b", 7));
    assert_eq!((due.key_at(1).as_str(), *due.value_at(1)), ("a", 1));
    assert_eq!((due.key_at(2).as_str(), *due.value_at(2)), ("c", 7));

    // a sum that does not fit leaves everything as it was
    assert_eq!(
        account.internal_note_rewards(&mut due, &vec![(s("d"), 1), (s("a"), u128::MAX)]),
        Err(Error::Overflow)
    );
    assert_eq!(due.len(), 3);
    assert_eq!(account.affected_farms.len(), 3);
}

#[test]
fn stake_counts_by_its_time() {
    let config = config();
    // the shortest time: as it is; the longest: fourfold; between: in proportion
    assert_eq!(compute_x_booster_amount(&config, 1000, 100 * SECOND), Ok(1000));
    assert_eq!(compute_x_booster_amount(&config, 1000, 300 * SECOND), Ok(4000));
    assert_eq!(compute_x_booster_amount(&config, 1000, 200 * SECOND), Ok(2500));
    assert_eq!(compute_x_booster_amount(&config, 1000, 100 * SECOND + 1), Ok(1000));
    assert_eq!(compute_x_booster_amount(&config, 3, 150 * SECOND), Ok(5));
    assert_eq!(compute_x_booster_amount(&config, 1000, 99 * SECOND), Err(Error::Overflow));
    assert_eq!(compute_x_booster_amount(&config, u128::MAX, 300 * SECOND), Err(Error::Overflow));
    let mut flat = config.clone();
    flat.maximum_staking_duration_sec = 100;
    assert_eq!(compute_x_booster_amount(&flat, 1000, 100 * SECOND), Err(Error::DivisionByZero));
    let mut low = config.clone();
    low.x_booster_multiplier_at_maximum_staking_duration = 9999;
    assert_eq!(compute_x_booster_amount(&low, 1000, 100 * SECOND), Err(Error::Overflow));

    // a first stake
    let first = extend_stake(&config, None, 10, 100 * SECOND, 500).unwrap();
    assert_eq!(
        first,
        (BoosterStaking { staked_booster_amount: 10, x_booster_amount: 10, unlock_timestamp: 500 }, 10)
    );
    // more for longer: what was staked counts anew
    let second = extend_stake(&config, Some(first.0), 5, 300 * SECOND, 900).unwrap();
    assert_eq!(
        second,
        (BoosterStaking { staked_booster_amount: 15, x_booster_amount: 60, unlock_timestamp: 900 }, 20)
    );
    // more for shorter, but free no earlier: what was staked counts as before
    let third = extend_stake(&config, Some(second.0), 1, 100 * SECOND, 900).unwrap();
    assert_eq!(
        third,
        (BoosterStaking { staked_booster_amount: 16, x_booster_amount: 61, unlock_timestamp: 900 }, 1)
    );
    assert_eq!(
        extend_stake(&config, Some(second.0), 1, 100 * SECOND, 899),
        Err(Error::StakeShortened)
    );
    assert_eq!(
        extend_stake(&config, Some(second.0), u128::MAX, 100 * SECOND, 900),
        Err(Error::Overflow)
    );
}

#[test]
fn staking_and_taking_back() {
    let mut ledger = ledger();
    let mut booster = ledger.internal_unwrap_asset(&s("booster")).unwrap();
    booster.reserved = 1000;
    ledger.internal_set_asset(&s("booster"), booster).unwrap();
    let mut account = Account::new(&s("alice"));
    assert_eq!(
        ledger.internal_account_stake_booster(&mut account, Some(10), 200),
        Err(Error::SuppliedNotFound)
    );
    ledger.internal_deposit(&mut account, &s("booster"), 100).unwrap();
    ledger.internal_deposit(&mut account, &s("dai"), 7).unwrap();
    account.farms.push(AccountFarmEntry { farm_id: FarmId::Supplied(s("dai")), farm: AccountFarm::new() });

    assert_eq!(
        ledger.internal_account_stake_booster(&mut account, Some(10), 99),
        Err(Error::StakingDurationOutOfRange)
    );
    assert_eq!(
        ledger.internal_account_stake_booster(&mut account, Some(10), 301),
        Err(Error::StakingDurationOutOfRange)
    );
    assert_eq!(
        ledger.internal_account_stake_booster(&mut account, Some(0), 200),
        Err(Error::ZeroAmount)
    );
    assert_eq!(
        ledger.internal_account_stake_booster(&mut account, Some(101), 200),
        Err(Error::NotEnoughSupplied)
    );
    assert_eq!(account.booster_staking, None);
    assert_eq!(account.get_supplied_shares(&s("booster")), Shares(100));
    assert!(account.affected_farms.is_empty());

    // 40 for 200 seconds count for 100
    assert_eq!(ledger.internal_account_stake_booster(&mut account, Some(40), 200), Ok((40, 100)));
    assert_eq!(
        account.booster_staking,
        Some(
            BoosterStaking {
                staked_booster_amount: 40,
                x_booster_amount: 100,
                unlock_timestamp: 1200 * SECOND
            }
        )
    );
    assert_eq!(account.get_supplied_shares(&s("booster")), Shares(60));
    assert_eq!(ledger.internal_unwrap_asset(&s("booster")).unwrap().supplied.balance, 60);
    assert_eq!(account.affected_farms, vec![FarmId::Supplied(s("dai"))]);

    // the rest, for the longest time
    account.affected_farms.clear();
    assert_eq!(ledger.internal_account_stake_booster(&mut account, None, 300), Ok((60, 240)));
    assert_eq!(
        account.booster_staking,
        Some(
            BoosterStaking {
                staked_booster_amount: 100,
                x_booster_amount: 400,
                unlock_timestamp: 1300 * SECOND
            }
        )
    );
    assert_eq!(account.get_supplied_shares(&s("booster")), Shares(0));
    assert_eq!(account.supplied.len(), 1);

    // the stake is locked until its time has come
    ledger.set_block_timestamp(1300 * SECOND - 1);
    assert_eq!(ledger.internal_account_unstake_booster(&mut account), Err(Error::StakeLocked));
    assert!(account.booster_staking.is_some());
    ledger.set_block_timestamp(1300 * SECOND);
    account.affected_farms.clear();
    assert_eq!(
        ledger.internal_account_unstake_booster(&mut account),
        Ok(
            BoosterStaking {
                staked_booster_amount: 100,
                x_booster_amount: 400,
                unlock_timestamp: 1300 * SECOND
            }
        )
    );
    assert_eq!(account.booster_staking, None);
    assert_eq!(account.get_supplied_shares(&s("booster")), Shares(100));
    assert_eq!(ledger.internal_unwrap_asset(&s("booster")).unwrap().supplied.balance, 100);
    assert_eq!(account.affected_farms, vec![FarmId::Supplied(s("dai"))]);
    assert_eq!(ledger.internal_account_unstake_booster(&mut account), Err(Error::NoStake));
}

#[test]
fn all_farms_of_an_account_are_marked() {
    let mut account = Account::new(&s("alice"));
    for farm_id in [FarmId::Supplied(s("a")), FarmId::Borrowed(s("a")), FarmId::SuppliedNFT(s("n"))] {
        account.farms.push(AccountFarmEntry { farm_id, farm: AccountFarm::new() });
    }
    account.add_affected_farm(FarmId::Borrowed(s("a")));
    account.add_affected_farm(FarmId::Supplied(s("z")));
    account.add_all_affected_farms();
    assert_eq!(
        account.affected_farms,
        vec![
            FarmId::Borrowed(s("a")),
            FarmId::Supplied(s("z")),
            FarmId::Supplied(s("a")),
            FarmId::SuppliedNFT(s("n")),
        ]
    );
}

#[test]
fn detailed_view_shows_the_farms() {
    let mut ledger = ledger();
    let mut account = Account::new(&s("alice"));
    ledger.internal_deposit(&mut account, &s("dai"), 10).unwrap();
    ledger.internal_deposit(&mut account, &s("booster"), 3).unwrap();
    let farm_id = FarmId::Supplied(s("dai"));
    let mut claimed = AccountFarm::new();
    claimed.block_timestamp = 1;
    claimed.rewards.insert(s("a"), held(10, BIG_DIVISOR));
    claimed.rewards.insert(s("gone"), held(4, 0));
    account.farms.push(AccountFarmEntry { farm_id: farm_id.clone(), farm: claimed });

    let mut farm = AssetFarm::new(1000 * SECOND);
    farm.rewards.insert(s("a"), reward(1, 0, 100, 10, 3 * BIG_DIVISOR));
    farm.rewards.insert(s("b"), reward(1, 0, 100, 0, 0));
    farm.inactive_rewards.insert(s("gone"), reward(1, 0, 0, 4, 2 * BIG_DIVISOR));

    // the farm of the account must be on offer
    assert_eq!(
        ledger.account_into_detailed_view(account.clone(), &vec![]).map(|v| v.farms.len()),
        Err(Error::FarmNotFound)
    );

    let offered = vec![(farm_id.clone(), farm.clone())];
    let view = ledger.account_into_detailed_view(account.clone(), &offered).unwrap();
    assert_eq!(view.account_id, "alice");
    assert_eq!(view.supplied.len(), 2);
    assert_eq!(view.supplied[0].balance, 10);
    assert!(view.borrowed.is_empty() && view.nft_supplied.is_empty());
    assert_eq!(view.booster_staking, None);
    assert!(!view.has_non_farmed_assets);
    assert_eq!(view.farms.len(), 1);
    assert_eq!(view.farms[0].farm_id, farm_id);
    let rewards = &view.farms[0].rewards;
    assert_eq!(rewards.len(), 3);
    assert_eq!(rewards[0].reward_token_id, "a");
    assert_eq!((rewards[0].boosted_shares, rewards[0].unclaimed_amount), (10, 20));
    assert_eq!(rewards[0].asset_farm_reward.remaining_rewards, 100);
    assert_eq!(rewards[1].reward_token_id, "b");
    assert_eq!((rewards[1].boosted_shares, rewards[1].unclaimed_amount), (0, 0));
    assert_eq!(rewards[2].reward_token_id, "gone");
    assert_eq!((rewards[2].boosted_shares, rewards[2].unclaimed_amount), (4, 8));
    assert_eq!(rewards[2].asset_farm_reward.reward_per_share, m(2 * BIG_DIVISOR));
    assert_eq!(
        ledger.account_farm_view(&account, &farm_id, &farm).map(|r| r.len()),
        Ok(3)
    );

    // a farm of a position that the account is not yet part of
    let more = vec![(farm_id.clone(), farm.clone()), (FarmId::Supplied(s("booster")), AssetFarm::new(0))];
    assert!(ledger.account_into_detailed_view(account.clone(), &more).unwrap().has_non_farmed_assets);
    assert!(Contract::has_non_farmed_assets(&account, &more));
    // a farm of a position that the account does not hold
    let other = vec![(farm_id.clone(), farm.clone()), (FarmId::Borrowed(s("dai")), AssetFarm::new(0))];
    assert!(!Contract::has_non_farmed_assets(&account, &other));

    // a reward that the farm has lost is an error
    farm.inactive_rewards.remove(&s("gone"));
    assert_eq!(
        ledger.account_farm_view(&account, &farm_id, &farm).map(|r| r.len()),
        Err(Error::FarmRewardNotFound)
    );
}

#[test]
fn tokens_that_are_lent_out_cannot_be_staked() {
    let mut ledger = ledger();
    let mut account = Account::new(&s("alice"));
    ledger.internal_deposit(&mut account, &s("booster"), 100).unwrap();
    let mut asset = ledger.internal_unwrap_asset(&s("booster")).unwrap();
    asset.borrowed = Pool { shares: Shares(80), balance: 80 };
    ledger.internal_set_asset(&s("booster"), asset).unwrap();

    assert_eq!(
        ledger.internal_account_stake_booster(&mut account, Some(21), 100),
        Err(Error::ExceededAvailable)
    );
    assert_eq!(ledger.internal_account_stake_booster(&mut account, None, 100), Err(Error::ExceededAvailable));
    assert_eq!(account.get_supplied_shares(&s("booster")), Shares(100));
    assert_eq!(ledger.internal_account_stake_booster(&mut account, Some(20), 100), Ok((20, 20)));
    let asset = ledger.internal_unwrap_asset(&s("booster")).unwrap();
    assert_eq!(asset.supplied.balance, 80);
    assert_eq!(asset.available_amount(), Ok(0));
}
