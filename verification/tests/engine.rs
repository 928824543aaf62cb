//! The actions of the ledger one by one, on a small ledger in memory.

use nearlend::account::Account;
use nearlend::account_asset::AccountAsset;
use nearlend::account_farm::FarmId;
use nearlend::actions::{asset_amount_to_shares, Action, AssetAmount, NFTAsset, NFT_BALANCE};
use nearlend::asset::Asset;
use nearlend::asset_config::AssetConfig;
use nearlend::big_decimal::{BigDecimal, BIG_DIVISOR};
use nearlend::config::Config;
use nearlend::contract::Contract;
use nearlend::error::Error;
use nearlend::events::Event;
use nearlend::execute::Effect;
use nearlend::pool::{Pool, Shares};
use nearlend::price_receiver::PriceData;
use nearlend::prices::{Price, Prices};

fn s(x: &str) -> String {
    x.to_string()
}

fn m(mantissa: u128) -> BigDecimal {
    BigDecimal::from_mantissa(mantissa)
}

fn config(volatility_ratio: u32) -> AssetConfig {
    AssetConfig {
        reserve_ratio: 2500,
        target_utilization: 8000,
        target_utilization_rate: 1000000000002440418605283556,
        max_utilization_rate: 1000000000039724853136740579,
        volatility_ratio,
        extra_decimals: 0,
        can_deposit: true,
        can_withdraw: true,
        can_use_as_collateral: true,
        can_borrow: true,
    }
}

/// A ledger with the assets "a" and "b", each with a reserve of 1000, and
/// the accounts "alice" and "bob".  The balances have no decimals.
fn ledger() -> Contract {
    let mut ledger = Contract::new(
        Config {
            oracle_account_id: s("oracle"),
            owner_id: s("owner"),
            booster_token_id: s("booster"),
            booster_decimals: 18,
            max_num_assets: 10,
            maximum_recency_duration_sec: 90,
            maximum_staleness_duration_sec: 15,
            minimum_staking_duration_sec: 1,
            maximum_staking_duration_sec: 2,
            x_booster_multiplier_at_maximum_staking_duration: 3,
            force_closing_enabled: true,
        },
        0,
    );
    for (token, ratio) in [("a", 5000u32), ("b", 8000)] {
        let mut asset = Asset::new(0, config(ratio));
        asset.reserved = 1000;
        ledger.internal_set_asset(&s(token), asset).unwrap();
    }
    let mut nft = Asset::new(0, config(5000));
    nft.config.can_borrow = false;
    ledger.internal_set_asset(&s("nft"), nft).unwrap();
    ledger.internal_set_account(&s("alice"), Account::new(&s("alice")));
    ledger.internal_set_account(&s("bob"), Account::new(&s("bob")));
    ledger
}

/// A unit of "a" is worth `a`, a unit of "b" is worth `b`, and a
/// non-fungible token is worth `nft`.
fn prices(a: u128, b: u128, nft: u128) -> Prices {
    let mut prices = Prices::new();
    prices.prices.insert(s("a"), Price { multiplier: a, decimals: 0 });
    prices.prices.insert(s("b"), Price { multiplier: b, decimals: 0 });
    prices.prices.insert(s("nft"), Price { multiplier: nft, decimals: 24 });
    prices
}

fn exactly(token: &str, amount: u128) -> AssetAmount {
    AssetAmount { token_id: s(token), amount: Some(amount), max_amount: None }
}

fn at_most(token: &str, max_amount: u128) -> AssetAmount {
    AssetAmount { token_id: s(token), amount: None, max_amount: Some(max_amount) }
}

fn all(token: &str) -> AssetAmount {
    AssetAmount { token_id: s(token), amount: None, max_amount: None }
}

#[test]
fn requests_resolve_to_shares_and_amounts() {
    let pool = Pool { shares: Shares(3), balance: 10 };
    // a given amount is used as it is; the shares are rounded against the account
    assert_eq!(asset_amount_to_shares(&pool, Shares(3), &exactly("a", 5), false), Ok((Shares(2), 5)));
    assert_eq!(asset_amount_to_shares(&pool, Shares(3), &exactly("a", 5), true), Ok((Shares(1), 5)));
    assert_eq!(asset_amount_to_shares(&pool, Shares(1), &exactly("a", 5), false), Ok((Shares(2), 5)));
    // a maximal amount is cut down to the shares that are there
    assert_eq!(asset_amount_to_shares(&pool, Shares(3), &at_most("a", 5), false), Ok((Shares(2), 5)));
    assert_eq!(asset_amount_to_shares(&pool, Shares(1), &at_most("a", 5), false), Ok((Shares(1), 3)));
    assert_eq!(asset_amount_to_shares(&pool, Shares(1), &at_most("a", 5), true), Ok((Shares(1), 4)));
    assert_eq!(asset_amount_to_shares(&pool, Shares(3), &at_most("a", 100), false), Ok((Shares(3), 10)));
    // without either, everything that is there is used
    assert_eq!(asset_amount_to_shares(&pool, Shares(2), &all("a"), false), Ok((Shares(2), 6)));
    assert_eq!(asset_amount_to_shares(&pool, Shares(2), &all("a"), true), Ok((Shares(2), 7)));
    // nothing is never done
    assert_eq!(asset_amount_to_shares(&pool, Shares(0), &all("a"), false), Err(Error::ZeroShares));
    assert_eq!(asset_amount_to_shares(&pool, Shares(3), &exactly("a", 0), false), Err(Error::ZeroShares));
    assert_eq!(asset_amount_to_shares(&pool, Shares(3), &exactly("a", 1), true), Err(Error::ZeroShares));
    assert_eq!(asset_amount_to_shares(&pool, Shares(3), &at_most("a", 0), false), Err(Error::ZeroShares));
    let thin = Pool { shares: Shares(10), balance: 3 };
    assert_eq!(asset_amount_to_shares(&thin, Shares(1), &all("a"), false), Err(Error::ZeroAmount));
    assert_eq!(asset_amount_to_shares(&thin, Shares(1), &all("a"), true), Ok((Shares(1), 1)));
    assert_eq!(
        asset_amount_to_shares(&thin, Shares(1), &exactly("a", u128::MAX), false),
        Err(Error::Overflow)
    );
}

#[test]
fn deposit_and_withdrawal() {
    let mut ledger = ledger();
    let mut alice = Account::new(&s("alice"));
    assert_eq!(ledger.internal_deposit(&mut alice, &s("a"), 100), Ok(Shares(100)));
    assert_eq!(alice.get_supplied_shares(&s("a")), Shares(100));
    let asset = ledger.internal_unwrap_asset(&s("a")).unwrap();
    assert_eq!(asset.supplied, Pool { shares: Shares(100), balance: 100 });
    assert_eq!(asset.available_amount(), Ok(1100));

    assert_eq!(ledger.internal_deposit(&mut alice, &s("x"), 100), Err(Error::AssetNotFound));
    assert_eq!(ledger.internal_deposit(&mut alice, &s("a"), u128::MAX), Err(Error::Overflow));
    assert_eq!(alice.get_supplied_shares(&s("a")), Shares(100));

    assert_eq!(ledger.internal_withdraw(&mut alice, &exactly("a", 40)), Ok(40));
    assert_eq!(alice.get_supplied_shares(&s("a")), Shares(60));
    assert_eq!(ledger.internal_withdraw(&mut alice, &exactly("b", 1)), Err(Error::SuppliedNotFound));
    assert_eq!(ledger.internal_withdraw(&mut alice, &exactly("x", 1)), Err(Error::AssetNotFound));
    assert_eq!(ledger.internal_withdraw(&mut alice, &exactly("a", 61)), Err(Error::NotEnoughSupplied));
    assert_eq!(ledger.internal_withdraw(&mut alice, &exactly("a", 0)), Err(Error::ZeroShares));
    assert_eq!(ledger.internal_withdraw(&mut alice, &at_most("a", 1000)), Ok(60));
    assert!(alice.supplied.is_empty());
    assert_eq!(ledger.internal_unwrap_asset(&s("a")).unwrap().supplied, Pool::new());

    let mut closed = ledger.internal_unwrap_asset(&s("a")).unwrap();
    closed.config.can_withdraw = false;
    ledger.internal_set_asset(&s("a"), closed).unwrap();
    ledger.internal_deposit(&mut alice, &s("a"), 5).unwrap();
    assert_eq!(ledger.internal_withdraw(&mut alice, &all("a")), Err(Error::WithdrawDisabled));
}

#[test]
fn withdrawal_of_what_is_lent_out_is_refused() {
    let mut ledger = ledger();
    let mut alice = Account::new(&s("alice"));
    let mut bob = Account::new(&s("bob"));
    ledger.internal_deposit(&mut alice, &s("a"), 5000).unwrap();
    // bob borrows all but 100 of what the asset holds
    assert_eq!(ledger.internal_borrow(&mut bob, &exactly("a", 5900)), Ok(5900));
    ledger.internal_withdraw(&mut bob, &exactly("a", 5900)).unwrap();
    let asset = ledger.internal_unwrap_asset(&s("a")).unwrap();
    assert_eq!(asset.available_amount(), Ok(100));
    assert_eq!(ledger.internal_withdraw(&mut alice, &exactly("a", 101)), Err(Error::ExceededAvailable));
    assert_eq!(ledger.internal_borrow(&mut bob, &exactly("a", 101)), Err(Error::ExceededAvailable));
    assert_eq!(ledger.internal_withdraw(&mut alice, &exactly("a", 100)), Ok(100));
    assert_eq!(ledger.internal_unwrap_asset(&s("a")).unwrap().available_amount(), Ok(0));
    assert_eq!(ledger.internal_borrow(&mut bob, &all("a")), Err(Error::ZeroShares));
}

#[test]
fn loan_and_repayment() {
    let mut ledger = ledger();
    let mut alice = Account::new(&s("alice"));
    assert_eq!(ledger.internal_borrow(&mut alice, &exactly("x", 1)), Err(Error::AssetNotFound));
    assert_eq!(ledger.internal_borrow(&mut alice, &exactly("nft", 1)), Err(Error::BorrowDisabled));
    assert_eq!(ledger.internal_borrow(&mut alice, &exactly("a", 200)), Ok(200));
    // what is borrowed is supplied to the account
    assert_eq!(alice.get_borrowed_shares(&s("a")), Shares(200));
    assert_eq!(alice.get_supplied_shares(&s("a")), Shares(200));
    let asset = ledger.internal_unwrap_asset(&s("a")).unwrap();
    assert_eq!(asset.borrowed, Pool { shares: Shares(200), balance: 200 });
    assert_eq!(asset.supplied, Pool { shares: Shares(200), balance: 200 });
    assert_eq!(asset.available_amount(), Ok(1000));

    // another account supplies and borrows of the same asset
    let mut bob = Account::new(&s("bob"));
    ledger.internal_deposit(&mut bob, &s("a"), 500).unwrap();
    ledger.internal_borrow(&mut bob, &exactly("a", 100)).unwrap();

    let mut position = alice.internal_unwrap_asset(&s("a")).unwrap();
    assert_eq!(
        ledger.internal_repay(&mut position, &mut alice, &exactly("b", 1)),
        Err(Error::BorrowedNotFound)
    );
    assert_eq!(
        ledger.internal_repay(&mut position, &mut alice, &exactly("x", 1)),
        Err(Error::AssetNotFound)
    );
    assert_eq!(ledger.internal_repay(&mut position, &mut alice, &exactly("a", 50)), Ok(50));
    assert_eq!(position.shares, Shares(150));
    assert_eq!(alice.get_borrowed_shares(&s("a")), Shares(150));
    // more than is owed cannot be repaid
    let mut large = AccountAsset { shares: Shares(500) };
    assert_eq!(
        ledger.internal_repay(&mut large, &mut alice, &exactly("a", 151)),
        Err(Error::NotEnoughBorrowed)
    );
    assert_eq!(large.shares, Shares(500));
    assert_eq!(alice.get_borrowed_shares(&s("a")), Shares(150));

    // a position that does not hold the amount is used up
    let mut small = AccountAsset { shares: Shares(30) };
    assert_eq!(ledger.internal_repay(&mut small, &mut alice, &at_most("a", 100)), Ok(30));
    assert!(small.is_empty());
    assert_eq!(alice.get_borrowed_shares(&s("a")), Shares(120));
    // unless the amount was fixed
    let mut small = AccountAsset { shares: Shares(30) };
    assert_eq!(
        ledger.internal_repay(&mut small, &mut alice, &exactly("a", 100)),
        Err(Error::NotEnoughSuppliedBalance)
    );
    assert_eq!(small.shares, Shares(30));
    // and an empty one repays nothing
    let mut empty = AccountAsset::new();
    assert_eq!(ledger.internal_repay(&mut empty, &mut alice, &all("a")), Err(Error::ZeroAmount));
    assert_eq!(ledger.internal_repay(&mut position, &mut alice, &all("a")), Ok(120));
    assert!(alice.borrowed.is_empty());
    assert_eq!(
        ledger.internal_unwrap_asset(&s("a")).unwrap().borrowed,
        Pool { shares: Shares(100), balance: 100 }
    );
}

#[test]
fn supplied_shares_move_between_accounts() {
    let mut ledger = ledger();
    let mut alice = Account::new(&s("alice"));
    ledger.internal_deposit(&mut alice, &s("a"), 100).unwrap();
    let mut position = AccountAsset::new();
    assert_eq!(ledger.internal_decrease_supplied(&mut position, &mut alice, &exactly("a", 30)), Ok(30));
    assert_eq!(position.shares, Shares(30));
    assert_eq!(alice.get_supplied_shares(&s("a")), Shares(70));
    assert_eq!(
        ledger.internal_decrease_supplied(&mut position, &mut alice, &exactly("a", 71)),
        Err(Error::NotEnoughSupplied)
    );
    assert_eq!(
        ledger.internal_decrease_supplied(&mut position, &mut alice, &exactly("b", 1)),
        Err(Error::SuppliedNotFound)
    );
    assert_eq!(ledger.internal_decrease_supplied(&mut position, &mut alice, &all("a")), Ok(70));
    assert!(alice.supplied.is_empty());
    assert_eq!(ledger.internal_unwrap_asset(&s("a")).unwrap().supplied.shares, Shares(100));
}

#[test]
fn discount_is_half_the_uncovered_part() {
    let mut ledger = ledger();
    let mut alice = Account::new(&s("alice"));
    ledger.internal_deposit(&mut alice, &s("a"), 1000).unwrap();
    ledger.internal_borrow(&mut alice, &exactly("b", 400)).unwrap();
    ledger.internal_withdraw(&mut alice, &exactly("b", 400)).unwrap();
    // collateral: 1000 at half its value; debt: 400 at five quarters of its value
    assert_eq!(ledger.compute_max_discount(&alice, &alice, &prices(1, 1, 0)), Ok(BigDecimal::zero()));
    assert_eq!(ledger.compute_max_discount(&alice, &alice, &prices(1, 2, 0)), Ok(m(BIG_DIVISOR / 4)));
    assert_eq!(ledger.compute_max_discount(&alice, &alice, &prices(2, 2, 0)), Ok(BigDecimal::zero()));
    assert_eq!(
        ledger.compute_max_discount(&alice, &alice, &prices(1, 4, 0)),
        Ok(m(BIG_DIVISOR * 3 / 8))
    );
    // the discount grows with the debt and falls with the collateral
    let mut last = BigDecimal::zero();
    for b in [1u128, 2, 3, 5, 8, 100] {
        let d = ledger.compute_max_discount(&alice, &alice, &prices(1, b, 0)).unwrap();
        assert!(d.ge(&last));
        last = d;
    }
    for a in [1u128, 2, 3, 5, 8, 100] {
        let d = ledger.compute_max_discount(&alice, &alice, &prices(a, 100, 0)).unwrap();
        assert!(d.le(&last));
        last = d;
    }
    // a non-fungible token counts with the collateral
    ledger.internal_nft_deposit(&mut alice, &s("nft"), &s("7"));
    assert_eq!(
        ledger.compute_max_discount(&alice, &alice, &prices(1, 2, 600)),
        Ok(m(BIG_DIVISOR / 10))
    );
    assert_eq!(NFT_BALANCE, 10u128.pow(24));
    // the collateral is that of the first account, the debt that of the second
    let empty = Account::new(&s("bob"));
    assert_eq!(ledger.compute_max_discount(&alice, &empty, &prices(1, 2, 0)), Ok(BigDecimal::zero()));
    assert_eq!(ledger.compute_max_discount(&empty, &alice, &prices(1, 2, 0)), Ok(m(BIG_DIVISOR / 2)));
    // a price that is missing is an error
    let mut some = Prices::new();
    some.prices.insert(s("a"), Price { multiplier: 1, decimals: 0 });
    assert_eq!(ledger.compute_max_discount(&alice, &alice, &some), Err(Error::MissingPrice));
    assert_eq!(Contract::value_of(&some, &s("a"), 3, 0), Ok(BigDecimal::from_u128(3)));
    assert_eq!(Contract::value_of(&some, &s("b"), 3, 0), Err(Error::MissingPrice));
}

#[test]
fn batch_is_all_or_nothing() {
    let mut ledger = ledger();
    let mut alice = Account::new(&s("alice"));
    ledger.internal_deposit(&mut alice, &s("a"), 1000).unwrap();
    ledger.internal_set_account(&s("alice"), alice.clone());

    // the second action is refused, so the first does not happen either
    let actions = vec![Action::Borrow(exactly("b", 100)), Action::Withdraw(exactly("a", 2000))];
    assert_eq!(
        ledger.internal_execute(&s("alice"), &mut alice, actions, prices(1, 1, 0)).map(|e| e.len()),
        Err(Error::NotEnoughSupplied)
    );
    assert!(alice.borrowed.is_empty());
    assert!(alice.affected_farms.is_empty());
    assert_eq!(ledger.internal_unwrap_asset(&s("b")).unwrap().borrowed, Pool::new());

    // a batch that leaves the account at risk is refused as a whole
    let actions = vec![Action::Borrow(exactly("b", 500)), Action::Withdraw(exactly("b", 500))];
    assert_eq!(
        ledger.internal_execute(&s("alice"), &mut alice, actions, prices(1, 1, 0)).map(|e| e.len()),
        Err(Error::Unhealthy)
    );
    assert!(alice.borrowed.is_empty());

    // the effects come in the order of the actions
    let actions = vec![
        Action::Borrow(exactly("b", 100)),
        Action::Withdraw(exactly("b", 60)),
        Action::Repay(exactly("b", 10)),
    ];
    let effects = ledger.internal_execute(&s("alice"), &mut alice, actions, prices(1, 1, 0)).unwrap();
    assert_eq!(effects.len(), 4);
    match &effects[0] {
        Effect::Emit(Event::Borrow { account_id, amount, token_id }) => {
            assert_eq!((account_id.as_str(), *amount, token_id.as_str()), ("alice", 100, "b"));
        },
        _ => panic!("the first effect is the loan"),
    }
    match &effects[1] {
        Effect::FtTransfer { account_id, token_id, amount } => {
            assert_eq!((account_id.as_str(), token_id.as_str(), *amount), ("alice", "b", 60));
        },
        _ => panic!("the second effect is the transfer"),
    }
    assert!(matches!(&effects[2], Effect::Emit(Event::WithdrawStarted { amount: 60, .. })));
    assert!(matches!(&effects[3], Effect::Emit(Event::Repay { amount: 10, .. })));
    assert_eq!(alice.get_borrowed_shares(&s("b")), Shares(90));
    assert_eq!(alice.get_supplied_shares(&s("b")), Shares(30));
    assert_eq!(
        alice.affected_farms,
        vec![FarmId::Supplied(s("b")), FarmId::Borrowed(s("b"))]
    );

    // a batch without actions does nothing
    let effects = ledger.internal_execute(&s("alice"), &mut alice, vec![], Prices::new()).unwrap();
    assert!(effects.is_empty());
}

#[test]
fn liquidation_step_by_step() {
    let mut ledger = ledger();
    let mut alice = Account::new(&s("alice"));
    let mut bob = Account::new(&s("bob"));
    ledger.internal_deposit(&mut alice, &s("a"), 1000).unwrap();
    ledger.internal_borrow(&mut alice, &exactly("b", 400)).unwrap();
    ledger.internal_withdraw(&mut alice, &exactly("b", 400)).unwrap();
    ledger.internal_set_account(&s("alice"), alice);
    ledger.internal_deposit(&mut bob, &s("b"), 500).unwrap();

    let target = s("alice");
    // an account that is not registered cannot be liquidated
    assert_eq!(
        ledger
            .internal_liquidate(&s("bob"), &mut bob, &prices(1, 2, 0), &s("carol"), &vec![], &vec![])
            .map(|_| ()),
        Err(Error::AccountNotFound)
    );
    // at these prices the discount is a quarter: 100 of debt are worth 200, for which up to
    // 266 of collateral can be had
    let before = ledger.clone();
    assert_eq!(
        ledger
            .internal_liquidate(
                &s("bob"),
                &mut bob,
                &prices(1, 2, 0),
                &target,
                &vec![exactly("b", 100)],
                &vec![exactly("a", 267)],
            )
            .map(|_| ()),
        Err(Error::NotEnoughRepaid)
    );
    assert_eq!(bob.get_supplied_shares(&s("b")), Shares(500));
    assert_eq!(ledger.accounts.len(), before.accounts.len());
    assert_eq!(
        ledger.internal_unwrap_account(&target).unwrap().get_borrowed_shares(&s("b")),
        Shares(400)
    );
    // repaying nearly everything would leave the account out of risk
    assert_eq!(
        ledger
            .internal_liquidate(
                &s("bob"),
                &mut bob,
                &prices(1, 2, 0),
                &target,
                &vec![exactly("b", 390)],
                &vec![exactly("a", 1)],
            )
            .map(|_| ()),
        Err(Error::LiquidationTooLarge)
    );
    // taking the collateral at its full discount makes the account worse
    let event = ledger
        .internal_liquidate(
            &s("bob"),
            &mut bob,
            &prices(1, 2, 0),
            &target,
            &vec![exactly("b", 100)],
            &vec![exactly("a", 200)],
        )
        .unwrap();
    match event {
        Event::Liquidate { account_id, liquidation_account_id, collateral_sum, repaid_sum } => {
            assert_eq!(account_id, "bob");
            assert_eq!(liquidation_account_id, "alice");
            assert_eq!(collateral_sum, BigDecimal::from_u128(200));
            assert_eq!(repaid_sum, BigDecimal::from_u128(200));
        },
        _ => panic!("not a liquidation"),
    }
    assert_eq!(bob.get_supplied_shares(&s("b")), Shares(400));
    assert_eq!(bob.get_supplied_shares(&s("a")), Shares(200));
    // the farms of the positions that changed are marked in both accounts
    assert_eq!(bob.affected_farms, vec![FarmId::Supplied(s("b")), FarmId::Supplied(s("a"))]);
    let alice = ledger.internal_unwrap_account(&target).unwrap();
    assert_eq!(alice.get_supplied_shares(&s("a")), Shares(800));
    assert_eq!(alice.get_borrowed_shares(&s("b")), Shares(300));
    assert_eq!(
        alice.affected_farms,
        vec![FarmId::Borrowed(s("b")), FarmId::Supplied(s("a"))]
    );
    // the discount went down from a quarter to (750 - 400) / 750 / 2
    assert_eq!(
        ledger.compute_max_discount(&alice, &alice, &prices(1, 2, 0)),
        Ok(m(233333333333333333333333333))
    );
}

#[test]
fn liquidation_for_a_non_fungible_token() {
    let mut ledger = ledger();
    let mut alice = Account::new(&s("alice"));
    let mut bob = Account::new(&s("bob"));
    ledger.internal_deposit(&mut alice, &s("a"), 1000).unwrap();
    ledger.internal_nft_deposit(&mut alice, &s("nft"), &s("7"));
    let nft = ledger.internal_unwrap_asset(&s("nft")).unwrap();
    ledger.internal_set_nft_asset(&s("nft"), s("alice"), s("7"), nft);
    ledger.internal_borrow(&mut alice, &exactly("b", 400)).unwrap();
    ledger.internal_withdraw(&mut alice, &exactly("b", 400)).unwrap();
    ledger.internal_set_account(&s("alice"), alice);
    ledger.internal_deposit(&mut bob, &s("b"), 500).unwrap();

    let target = s("alice");
    let token = vec![NFTAsset { nft_contract_id: s("nft"), token_id: s("7") }];
    let missing = vec![NFTAsset { nft_contract_id: s("nft"), token_id: s("8") }];
    // the token is worth 100: collateral 500 + 50, debt 1000, discount 0.225
    assert_eq!(
        ledger
            .internal_liquidate_nft(&s("bob"), &mut bob, &prices(1, 2, 100), &target, &vec![exactly("b", 30)], &missing)
            .map(|_| ()),
        Err(Error::NftNotFound)
    );
    assert_eq!(
        ledger
            .internal_liquidate_nft(&s("bob"), &mut bob, &prices(1, 2, 100), &s("carol"), &vec![exactly("b", 30)], &token)
            .map(|_| ()),
        Err(Error::AccountNotFound)
    );
    assert_eq!(
        ledger
            .internal_liquidate_nft(&s("alice"), &mut bob, &prices(1, 2, 100), &s("bob"), &vec![exactly("b", 30)], &token)
            .map(|_| ()),
        Err(Error::NotAtRisk)
    );
    assert_eq!(
        ledger
            .internal_liquidate_nft(&s("bob"), &mut bob, &prices(1, 2, 100), &target, &vec![exactly("b", 30)], &token)
            .map(|_| ()),
        Err(Error::NotEnoughRepaid)
    );
    let event = ledger
        .internal_liquidate_nft(&s("bob"), &mut bob, &prices(1, 2, 100), &target, &vec![exactly("b", 40)], &token)
        .unwrap();
    assert_eq!(event.name(), "liquidate");
    assert_eq!(bob.affected_farms, vec![FarmId::Supplied(s("b")), FarmId::SuppliedNFT(s("nft"))]);
    assert_eq!(bob.nft_supplied.len(), 1);
    assert_eq!(bob.nft_supplied.value_at(0).nft_token_id, "7");
    let alice = ledger.internal_unwrap_account(&target).unwrap();
    assert!(alice.nft_supplied.is_empty());
    assert_eq!(alice.get_borrowed_shares(&s("b")), Shares(360));
    let nft = ledger.internal_unwrap_asset(&s("nft")).unwrap();
    assert_eq!(nft.get_owner_nft(&s("7"), &nft), Some(s("bob")));
    // the token now belongs to bob: alice cannot be liquidated for it again
    assert_eq!(
        ledger
            .internal_liquidate_nft(&s("bob"), &mut bob, &prices(1, 2, 100), &target, &vec![exactly("b", 1)], &token)
            .map(|_| ()),
        Err(Error::NftNotOwner)
    );
}

#[test]
fn withdrawal_of_a_non_fungible_token() {
    let mut ledger = ledger();
    let mut alice = Account::new(&s("alice"));
    ledger.internal_nft_deposit(&mut alice, &s("nft"), &s("7"));
    let nft = ledger.internal_unwrap_asset(&s("nft")).unwrap();
    ledger.internal_set_nft_asset(&s("nft"), s("alice"), s("7"), nft);
    assert_eq!(alice.nft_supplied.key_at(0), "nft@7");
    let token = NFTAsset { nft_contract_id: s("nft"), token_id: s("7") };
    assert_eq!(ledger.internal_withdraw_nft(&s("bob"), &mut alice, &token), Err(Error::NftNotOwner));
    let other = NFTAsset { nft_contract_id: s("nft"), token_id: s("8") };
    assert_eq!(ledger.internal_withdraw_nft(&s("alice"), &mut alice, &other), Err(Error::NftNotFound));
    let unknown = NFTAsset { nft_contract_id: s("x"), token_id: s("7") };
    assert_eq!(ledger.internal_withdraw_nft(&s("alice"), &mut alice, &unknown), Err(Error::AssetNotFound));
    assert_eq!(alice.nft_supplied.len(), 1);
    assert_eq!(ledger.internal_withdraw_nft(&s("alice"), &mut alice, &token), Ok(()));
    assert!(alice.nft_supplied.is_empty());
    assert!(ledger.internal_unwrap_asset(&s("nft")).unwrap().nft_supplied.is_empty());

    let nft = ledger.internal_unwrap_asset(&s("nft")).unwrap();
    ledger.internal_set_nft_asset(&s("nft"), s("alice"), s("9"), nft);
    let nft = ledger.internal_unwrap_asset(&s("nft")).unwrap();
    ledger.internal_remove_nft_asset(&s("nft"), s("9"), nft);
    assert!(ledger.internal_unwrap_asset(&s("nft")).unwrap().nft_supplied.is_empty());
    let mut closed = ledger.internal_unwrap_asset(&s("nft")).unwrap();
    closed.config.can_withdraw = false;
    ledger.internal_set_asset(&s("nft"), closed).unwrap();
    assert_eq!(ledger.internal_withdraw_nft(&s("alice"), &mut alice, &token), Err(Error::WithdrawDisabled));
}

#[test]
fn writing_off_bad_debt() {
    let mut ledger = ledger();
    let mut alice = Account::new(&s("alice"));
    ledger.internal_deposit(&mut alice, &s("a"), 1000).unwrap();
    ledger.internal_borrow(&mut alice, &exactly("b", 400)).unwrap();
    ledger.internal_withdraw(&mut alice, &exactly("b", 400)).unwrap();
    ledger.internal_set_account(&s("alice"), alice);
    let target = s("alice");

    assert_eq!(
        ledger.internal_force_close(&prices(1, 1, 0), &s("carol")).map(|_| ()),
        Err(Error::AccountNotFound)
    );
    // the debt must be worth more than the collateral
    assert_eq!(
        ledger.internal_force_close(&prices(1, 2, 0), &target).map(|_| ()),
        Err(Error::NotBadDebt)
    );
    assert_eq!(
        ledger.internal_unwrap_account(&target).unwrap().get_supplied_shares(&s("a")),
        Shares(1000)
    );
    assert_eq!(ledger.internal_unwrap_asset(&s("a")).unwrap().reserved, 1000);
    // the reserve must hold what it is to pay
    let mut poor = ledger.clone();
    let mut asset = poor.internal_unwrap_asset(&s("b")).unwrap();
    asset.reserved = 399;
    asset.supplied = Pool { shares: Shares(1), balance: 1 };
    poor.internal_set_asset(&s("b"), asset).unwrap();
    assert_eq!(
        poor.internal_force_close(&prices(1, 3, 0), &target).map(|_| ()),
        Err(Error::NotEnoughReserve)
    );
    let mut off = ledger.clone();
    off.config.force_closing_enabled = false;
    assert_eq!(
        off.internal_force_close(&prices(1, 3, 0), &target).map(|_| ()),
        Err(Error::ForceCloseDisabled)
    );

    let event = ledger.internal_force_close(&prices(1, 3, 0), &target).unwrap();
    match event {
        Event::ForceClose { liquidation_account_id, collateral_sum, repaid_sum } => {
            assert_eq!(liquidation_account_id, "alice");
            assert_eq!(collateral_sum, BigDecimal::from_u128(1000));
            assert_eq!(repaid_sum, BigDecimal::from_u128(1200));
        },
        _ => panic!("not a writing off"),
    }
    let alice = ledger.internal_unwrap_account(&target).unwrap();
    assert!(alice.supplied.is_empty() && alice.borrowed.is_empty());
    assert_eq!(
        alice.affected_farms,
        vec![FarmId::Supplied(s("a")), FarmId::Borrowed(s("b"))]
    );
    let a = ledger.internal_unwrap_asset(&s("a")).unwrap();
    assert_eq!((a.supplied, a.reserved), (Pool::new(), 2000));
    let b = ledger.internal_unwrap_asset(&s("b")).unwrap();
    assert_eq!((b.borrowed, b.reserved), (Pool::new(), 600));
    assert_eq!(b.available_amount(), Ok(600));
}

#[test]
fn price_data_must_be_fresh() {
    let mut ledger = ledger();
    ledger.set_block_timestamp(100_000_000_000);
    let data = |timestamp: u64, recency_duration_sec: u32| PriceData {
        timestamp,
        recency_duration_sec,
        prices: vec![],
    };
    assert_eq!(ledger.validate_price_data(&data(100_000_000_000, 90)), Ok(()));
    assert_eq!(ledger.validate_price_data(&data(85_000_000_000, 0)), Ok(()));
    assert_eq!(ledger.validate_price_data(&data(84_999_999_999, 0)), Err(Error::PriceTooStale));
    assert_eq!(ledger.validate_price_data(&data(100_000_000_001, 0)), Err(Error::PriceFromFuture));
    assert_eq!(ledger.validate_price_data(&data(100_000_000_000, 91)), Err(Error::PriceRecencyTooLarge));
}

#[test]
fn views_show_amounts_and_rates() {
    let mut ledger = ledger();
    let mut alice = Account::new(&s("alice"));
    ledger.internal_deposit(&mut alice, &s("a"), 1000).unwrap();
    ledger.internal_borrow(&mut alice, &exactly("b", 400)).unwrap();
    ledger.internal_nft_deposit(&mut alice, &s("nft"), &s("7"));
    let view = ledger.get_asset_view(s("b"), Shares(100), true).unwrap();
    assert_eq!((view.token_id.as_str(), view.balance, view.shares), ("b", 100, Shares(100)));
    assert_eq!(view.apr, ledger.internal_unwrap_asset(&s("b")).unwrap().get_borrow_apr().unwrap());
    assert!(ledger.get_asset_view(s("x"), Shares(100), true).is_err());
    let views = ledger.get_asset_views(&alice.supplied, false).unwrap();
    assert_eq!(views.len(), 2);
    let nfts = Contract::get_nft_views(&alice);
    assert_eq!(nfts.len(), 1);
    assert_eq!(nfts[0].nft_token_id, "7");
    let view = ledger.account_into_simple_view(alice).unwrap();
    assert_eq!(view.account_id, "alice");
    assert_eq!(view.collateral[0].balance, 1000);
    assert_eq!(view.collateral[1].balance, 400);
    assert_eq!(view.collateral[0].apr, BigDecimal::zero());
    assert_eq!(view.borrowed[0].balance, 400);
    assert_eq!(view.borrowed[0].token_id, "b");
    assert_eq!(view.nft[0].nft_contract_id, "nft");
}

#[test]
fn assets_are_added_by_the_owner() {
    let mut ledger = ledger();
    ledger.set_block_timestamp(5);
    assert_eq!(ledger.internal_config().owner_id, "owner");
    assert_eq!(ledger.get_oracle_account_id(), "oracle");
    assert_eq!(ledger.assert_owner(&s("owner")), Ok(()));
    assert_eq!(ledger.assert_owner(&s("alice")), Err(Error::NotOwner));
    assert_eq!(ledger.add_asset(&s("alice"), &s("c"), config(5000)), Err(Error::NotOwner));
    assert_eq!(ledger.add_asset(&s("owner"), &s("a"), config(5000)), Err(Error::AssetExists));
    let mut wrong = config(5000);
    wrong.reserve_ratio = 10001;
    assert_eq!(ledger.add_asset(&s("owner"), &s("c"), wrong), Err(Error::InvalidConfig));
    assert_eq!(ledger.assets.len(), 3);
    assert_eq!(ledger.add_asset(&s("owner"), &s("c"), config(7000)), Ok(()));
    let asset = ledger.internal_unwrap_asset(&s("c")).unwrap();
    assert_eq!(asset.last_update_timestamp, 5);
    assert_eq!(asset.config.volatility_ratio, 7000);
    assert_eq!(asset.reserved, 0);

    assert_eq!(ledger.update_asset(&s("alice"), &s("c"), config(6000)), Err(Error::NotOwner));
    assert_eq!(ledger.update_asset(&s("owner"), &s("x"), config(6000)), Err(Error::AssetNotFound));
    assert_eq!(ledger.update_asset(&s("owner"), &s("c"), wrong), Err(Error::InvalidConfig));
    assert_eq!(ledger.update_asset(&s("owner"), &s("c"), config(6000)), Ok(()));
    assert_eq!(ledger.internal_unwrap_asset(&s("c")).unwrap().config.volatility_ratio, 6000);
}

#[test]
fn reserve_deposits_and_token_amounts() {
    let mut ledger = ledger();
    assert_eq!(ledger.deposit_to_reserve(&s("a"), 50), Ok(()));
    assert_eq!(ledger.internal_unwrap_asset(&s("a")).unwrap().reserved, 1050);
    assert_eq!(ledger.deposit_to_reserve(&s("a"), u128::MAX), Err(Error::Overflow));
    assert_eq!(ledger.deposit_to_reserve(&s("x"), 1), Err(Error::AssetNotFound));
    let mut closed = ledger.internal_unwrap_asset(&s("a")).unwrap();
    closed.config.can_deposit = false;
    ledger.internal_set_asset(&s("a"), closed).unwrap();
    assert_eq!(ledger.deposit_to_reserve(&s("a"), 1), Err(Error::DepositDisabled));
    assert_eq!(ledger.internal_unwrap_asset(&s("a")).unwrap().reserved, 1050);

    let mut asset = Asset::new(0, config(5000));
    asset.config.extra_decimals = 12;
    assert_eq!(asset.amount_to_internal(5), Ok(5_000_000_000_000));
    assert_eq!(asset.amount_from_internal(5_999_999_999_999), 5);
    assert_eq!(asset.amount_to_internal(u128::MAX), Err(Error::Overflow));
    assert_eq!(asset.amount_to_internal(0), Ok(0));
    asset.config.extra_decimals = 39;
    assert_eq!(asset.amount_to_internal(1), Err(Error::Overflow));
    assert_eq!(asset.amount_to_internal(0), Ok(0));
    assert_eq!(asset.amount_from_internal(u128::MAX), 0);
    asset.config.extra_decimals = 38;
    assert_eq!(asset.amount_to_internal(3), Ok(3 * 10u128.pow(38)));
    assert_eq!(asset.amount_from_internal(u128::MAX), 3);
    asset.config.extra_decimals = 0;
    assert_eq!(asset.amount_to_internal(u128::MAX), Ok(u128::MAX));
    assert_eq!(asset.amount_from_internal(7), 7);
}

#[test]
fn rates_of_an_asset_for_display() {
    let mut ledger = ledger();
    let mut alice = Account::new(&s("alice"));
    ledger.internal_borrow(&mut alice, &exactly("a", 400)).unwrap();
    let asset = ledger.internal_unwrap_asset(&s("a")).unwrap();
    let view = ledger.asset_into_apr_view(s("a"), asset.clone()).unwrap();
    assert_eq!(view.token_id, "a");
    assert_eq!(view.borrow_apr, asset.get_borrow_apr().unwrap());
    assert_eq!(view.supply_apr, asset.get_supply_apr().unwrap());
    assert!(view.borrow_apr.gt(&view.supply_apr));
}

#[test]
fn tokens_on_their_way_in() {
    let mut ledger = ledger();
    let mut asset = ledger.internal_unwrap_asset(&s("a")).unwrap();
    asset.config.extra_decimals = 2;
    ledger.internal_set_asset(&s("a"), asset).unwrap();
    let mut alice = Account::new(&s("alice"));
    let event = ledger.internal_ft_on_transfer(&mut alice, &s("a"), 5).unwrap();
    match event {
        Event::Deposit { account_id, amount, token_id } => {
            assert_eq!((account_id.as_str(), amount, token_id.as_str()), ("alice", 500, "a"));
        },
        _ => panic!("not a deposit"),
    }
    assert_eq!(alice.get_supplied_shares(&s("a")), Shares(500));
    assert_eq!(alice.affected_farms, vec![FarmId::Supplied(s("a"))]);
    assert_eq!(
        ledger.internal_ft_on_transfer(&mut alice, &s("x"), 5).map(|e| e.name()),
        Err(Error::AssetNotFound)
    );
    assert_eq!(
        ledger.internal_ft_on_transfer(&mut alice, &s("a"), u128::MAX).map(|e| e.name()),
        Err(Error::Overflow)
    );
    let mut closed = ledger.internal_unwrap_asset(&s("b")).unwrap();
    closed.config.can_deposit = false;
    ledger.internal_set_asset(&s("b"), closed).unwrap();
    assert_eq!(
        ledger.internal_ft_on_transfer(&mut alice, &s("b"), 5).map(|e| e.name()),
        Err(Error::DepositDisabled)
    );
    assert_eq!(alice.affected_farms.len(), 1);
    assert_eq!(alice.supplied.len(), 1);

    assert_eq!(ledger.internal_nft_on_transfer(&s("alice"), &s("nft"), &s("7")), Ok(()));
    let alice = ledger.internal_unwrap_account(&s("alice")).unwrap();
    assert_eq!(alice.nft_supplied.key_at(0), "nft@7");
    assert_eq!(alice.nft_supplied.value_at(0).nft_contract_id, "nft");
    assert_eq!(
        alice.affected_farms,
        vec![FarmId::Supplied(s("nft")), FarmId::SuppliedNFT(s("nft"))]
    );
    let nft = ledger.internal_unwrap_asset(&s("nft")).unwrap();
    assert_eq!(nft.get_owner_nft(&s("7"), &nft), Some(s("alice")));
    assert_eq!(
        ledger.internal_nft_on_transfer(&s("carol"), &s("nft"), &s("8")),
        Err(Error::AccountNotFound)
    );
    assert_eq!(
        ledger.internal_nft_on_transfer(&s("alice"), &s("x"), &s("8")),
        Err(Error::AssetNotFound)
    );
    assert_eq!(
        ledger.internal_nft_on_transfer(&s("alice"), &s("b"), &s("8")),
        Err(Error::DepositDisabled)
    );
    assert_eq!(ledger.internal_unwrap_asset(&s("nft")).unwrap().nft_supplied.len(), 1);
}
