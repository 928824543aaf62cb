//! Whole calls against a ledger in memory: deposits, batches at oracle
//! prices, liquidations.  The wallets of the tokens are kept by the tests.

use nearlend::account::Account;
use nearlend::account_farm::FarmId;
use nearlend::account_view::{AccountDetailedView, AssetView};
use nearlend::actions::{Action, AssetAmount, NFTAsset};
use nearlend::asset::MS_PER_YEAR;
use nearlend::asset_config::AssetConfig;
use nearlend::asset_farm::{AssetFarm, AssetFarmReward};
use nearlend::big_decimal::BigDecimal;
use nearlend::config::Config;
use nearlend::contract::Contract;
use nearlend::error::Error;
use nearlend::events::Event;
use nearlend::execute::Effect;
use nearlend::nft_pool::NftPool;
use nearlend::pool::Pool;
use nearlend::price_receiver::{AssetOptionalPrice, PriceData};
use nearlend::prices::{Price, Prices};
use nearlend::str_map::StrMap;
use std::collections::HashMap;

const SEC_PER_YEAR: u32 = (MS_PER_YEAR / 1000) as u32;

const ORACLE_ID: &str = "oracle.near";
const NEARLEND_ID: &str = "nearlend.near";
const BOOSTER_TOKEN_ID: &str = "ft.nearlend.near";
const OWNER_ID: &str = "owner.near";
const NFT_ID: &str = "nft-nearlend.near";
const BOOSTER_TOKEN_DECIMALS: u8 = 18;
const GENESIS_TIMESTAMP: u64 = 1_600_000_000 * 1_000_000_000;
const LATEST_VERSION: &str = "0.6.0";
const ONE_DAY_SEC: u32 = 24 * 60 * 60;
const MIN_DURATION_SEC: u32 = 2678400;
const MAX_DURATION_SEC: u32 = 31536000;

fn d(value: u128, decimals: u8) -> u128 {
    value * 10u128.pow(decimals as u32)
}

fn a(account_id: &str) -> String {
    account_id.to_string()
}

fn to_nano(seconds: u32) -> u64 {
    u64::from(seconds) * 1_000_000_000
}

/// Why a call of the tests' environment failed: the ledger refused it, or
/// a token contract did.
#[derive(Debug, PartialEq)]
enum Failure {
    Ledger(Error),
    Token(String),
}

struct Tokens {
    wnear: String,
    neth: String,
    ndai: String,
    nusdt: String,
    nusdc: String,
}

impl Tokens {
    fn init(e: &mut Env) -> Tokens {
        let tokens = Tokens {
            wnear: a("wrap.near"),
            neth: a("neth.near"),
            ndai: a("dai.near"),
            nusdt: a("nusdt.near"),
            nusdc: a("nusdc.near"),
        };
        e.init_token(&tokens.wnear, 24);
        e.init_token(&tokens.neth, 18);
        e.init_token(&tokens.ndai, 18);
        e.init_token(&tokens.nusdt, 6);
        e.init_token(&tokens.nusdc, 6);
        tokens
    }
}

struct Users {
    alice: String,
    bob: String,
    charlie: String,
}

impl Users {
    fn init(_e: &Env) -> Users {
        Users { alice: a("alice.near"), bob: a("bob.near"), charlie: a("charlie.near") }
    }
}

/// A balance as a token contract reports it.
struct U128(u128);

/// A farm with the rewards that it pays, as the tests read it.
struct AssetFarmView {
    farm_id: FarmId,
    rewards: HashMap<String, AssetFarmReward>,
}

/// An asset with its rates and its farms, as the tests read it.
struct AssetDetailedView {
    supplied: Pool,
    borrowed: Pool,
    nft_supplied: Vec<NftPool>,
    reserved: u128,
    supply_apr: BigDecimal,
    borrow_apr: BigDecimal,
    farms: Vec<AssetFarmView>,
}

struct Env {
    contract: Contract,
    owner: String,
    booster_token: String,
    nft_contract: String,
    now: u64,
    /// The wallets: token, owner, balance.
    wallets: Vec<(String, String, u128)>,
    /// The non-fungible tokens outside the ledger: token, owner.
    nfts: Vec<(String, String)>,
    /// What the last successful call left to do.
    last_effects: Vec<Effect>,
    /// The farms as they were last stored.
    asset_farms: Vec<(FarmId, AssetFarm)>,
}

impl Env {
    fn init() -> Env {
        let config = Config {
            oracle_account_id: a(ORACLE_ID),
            owner_id: a(OWNER_ID),
            booster_token_id: a(BOOSTER_TOKEN_ID),
            booster_decimals: BOOSTER_TOKEN_DECIMALS,
            max_num_assets: 10,
            maximum_recency_duration_sec: 90,
            maximum_staleness_duration_sec: 15,
            minimum_staking_duration_sec: MIN_DURATION_SEC,
            maximum_staking_duration_sec: MAX_DURATION_SEC,
            x_booster_multiplier_at_maximum_staking_duration: 40000,
            force_closing_enabled: true,
        };
        let mut e = Env {
            contract: Contract::new(config, GENESIS_TIMESTAMP),
            owner: a(OWNER_ID),
            booster_token: a(BOOSTER_TOKEN_ID),
            nft_contract: a(NFT_ID),
            now: GENESIS_TIMESTAMP,
            wallets: vec![],
            nfts: vec![],
            last_effects: vec![],
            asset_farms: vec![],
        };
        let booster = e.booster_token.clone();
        e.init_token(&booster, BOOSTER_TOKEN_DECIMALS);
        e
    }

    fn init_token(&mut self, token: &String, decimals: u8) {
        let supply = 10u128.pow((9 + decimals) as u32);
        self.wallets.push((token.clone(), self.owner.clone(), supply));
    }

    fn balance_of(&self, token: &String, user: &String) -> u128 {
        for w in &self.wallets {
            if &w.0 == token && &w.1 == user {
                return w.2;
            }
        }
        0
    }

    fn set_balance(&mut self, token: &String, user: &String, balance: u128) {
        for w in self.wallets.iter_mut() {
            if &w.0 == token && &w.1 == user {
                w.2 = balance;
                return;
            }
        }
        self.wallets.push((token.clone(), user.clone(), balance));
    }

    fn get_balance(&self, token: &String, user: &String) -> u128 {
        self.balance_of(token, user)
    }

    fn mint_ft(&mut self, token: &String, receiver: &String, amount: u128) {
        let owner = self.owner.clone();
        let from = self.balance_of(token, &owner);
        assert!(from >= amount);
        self.set_balance(token, &owner, from - amount);
        let to = self.balance_of(token, receiver);
        self.set_balance(token, receiver, to + amount);
    }

    fn mint_tokens(&mut self, tokens: &Tokens, user: &String) {
        let amount = 1_000_000;
        self.mint_ft(&tokens.wnear, user, d(amount, 24));
        self.mint_ft(&tokens.neth, user, d(amount, 18));
        self.mint_ft(&tokens.ndai, user, d(amount, 18));
        self.mint_ft(&tokens.nusdt, user, d(amount, 6));
        self.mint_ft(&tokens.nusdc, user, d(amount, 6));
        let booster = self.booster_token.clone();
        self.mint_ft(&booster, user, d(amount, BOOSTER_TOKEN_DECIMALS));
    }

    fn mint_nft(&mut self, receiver: &String, token_id: String) {
        self.nfts.push((token_id, receiver.clone()));
    }

    fn add_asset(&mut self, token_id: &String, asset_config: AssetConfig) {
        self.contract.set_block_timestamp(self.now);
        self.contract.add_asset(&self.owner, token_id, asset_config).unwrap();
    }

    fn update_asset(&mut self, token_id: &String, asset_config: AssetConfig) {
        self.contract.set_block_timestamp(self.now);
        self.contract.update_asset(&self.owner, token_id, asset_config).unwrap();
    }

    fn setup_assets(&mut self, tokens: &Tokens) {
        let booster = self.booster_token.clone();
        self.add_asset(
            &booster,
            AssetConfig {
                reserve_ratio: 2500,
                target_utilization: 8000,
                target_utilization_rate: 1000000000008319516250272147,
                max_utilization_rate: 1000000000039724853136740579,
                volatility_ratio: 2000,
                extra_decimals: 0,
                can_deposit: true,
                can_withdraw: true,
                can_use_as_collateral: false,
                can_borrow: false,
            },
        );
        self.add_asset(
            &tokens.neth,
            AssetConfig {
                reserve_ratio: 2500,
                target_utilization: 8000,
                target_utilization_rate: 1000000000001547125956667610,
                max_utilization_rate: 1000000000039724853136740579,
                volatility_ratio: 6000,
                extra_decimals: 0,
                can_deposit: true,
                can_withdraw: true,
                can_use_as_collateral: true,
                can_borrow: true,
            },
        );
        self.add_asset(
            &tokens.ndai,
            AssetConfig {
                reserve_ratio: 2500,
                target_utilization: 8000,
                target_utilization_rate: 1000000000002440418605283556,
                max_utilization_rate: 1000000000039724853136740579,
                volatility_ratio: 9500,
                extra_decimals: 0,
                can_deposit: true,
                can_withdraw: true,
                can_use_as_collateral: true,
                can_borrow: true,
            },
        );
        self.add_asset(
            &tokens.nusdt,
            AssetConfig {
                reserve_ratio: 2500,
                target_utilization: 8000,
                target_utilization_rate: 1000000000002440418605283556,
                max_utilization_rate: 1000000000039724853136740579,
                volatility_ratio: 9500,
                extra_decimals: 12,
                can_deposit: true,
                can_withdraw: true,
                can_use_as_collateral: true,
                can_borrow: true,
            },
        );
        self.add_asset(
            &tokens.nusdc,
            AssetConfig {
                reserve_ratio: 2500,
                target_utilization: 8000,
                target_utilization_rate: 1000000000002440418605283556,
                max_utilization_rate: 1000000000039724853136740579,
                volatility_ratio: 9500,
                extra_decimals: 12,
                can_deposit: true,
                can_withdraw: true,
                can_use_as_collateral: true,
                can_borrow: true,
            },
        );
        self.add_asset(
            &tokens.wnear,
            AssetConfig {
                reserve_ratio: 2500,
                target_utilization: 8000,
                target_utilization_rate: 1000000000003593629036885046,
                max_utilization_rate: 1000000000039724853136740579,
                volatility_ratio: 6000,
                extra_decimals: 0,
                can_deposit: true,
                can_withdraw: true,
                can_use_as_collateral: true,
                can_borrow: true,
            },
        );
        let nft_contract = self.nft_contract.clone();
        self.add_asset(
            &nft_contract,
            AssetConfig {
                reserve_ratio: 2500,
                target_utilization: 8000,
                target_utilization_rate: 0,
                max_utilization_rate: 0,
                volatility_ratio: 3000,
                extra_decimals: 0,
                can_deposit: true,
                can_withdraw: true,
                can_use_as_collateral: true,
                can_borrow: false,
            },
        );
    }

    fn deposit_reserves(&mut self, tokens: &Tokens) {
        let owner = self.owner.clone();
        let booster = self.booster_token.clone();
        self.deposit_to_reserve(&tokens.wnear, &owner, d(10000, 24)).unwrap();
        self.deposit_to_reserve(&tokens.neth, &owner, d(10000, 18)).unwrap();
        self.deposit_to_reserve(&tokens.ndai, &owner, d(10000, 18)).unwrap();
        self.deposit_to_reserve(&tokens.nusdt, &owner, d(10000, 6)).unwrap();
        self.deposit_to_reserve(&tokens.nusdc, &owner, d(10000, 6)).unwrap();
        self.deposit_to_reserve(&booster, &owner, d(10000, BOOSTER_TOKEN_DECIMALS)).unwrap();
    }

    fn storage_deposit(&mut self, user: &String) {
        if self.contract.internal_get_account(user).is_none() {
            self.contract.internal_set_account(user, Account::new(user));
        }
    }

    /// Takes `amount` out of the wallet of `user` for a transfer to the
    /// ledger.
    fn take_from_wallet(&mut self, token: &String, user: &String, amount: u128) -> Result<
        (),
        Failure,
    > {
        let balance = self.balance_of(token, user);
        if balance < amount {
            return Err(Failure::Token(a("The account doesn't have enough balance")));
        }
        self.set_balance(token, user, balance - amount);
        Ok(())
    }

    fn deposit_to_reserve(&mut self, token: &String, user: &String, amount: u128) -> Result<
        (),
        Failure,
    > {
        let saved_wallets = self.wallets.clone();
        self.take_from_wallet(token, user, amount)?;
        self.contract.set_block_timestamp(self.now);
        let r = self
            .contract
            .internal_unwrap_asset(token)
            .and_then(|asset| asset.amount_to_internal(amount))
            .and_then(|internal| self.contract.deposit_to_reserve(token, internal))
            .map_err(Failure::Ledger);
        if r.is_err() {
            self.wallets = saved_wallets;
        }
        r
    }

    /// A transfer of `amount` of `token` from `user` to the ledger, with the
    /// actions to execute afterwards.
    fn contract_ft_transfer_call(
        &mut self,
        token: &String,
        user: &String,
        amount: u128,
        actions: Vec<Action>,
    ) -> Result<(), Failure> {
        let saved_wallets = self.wallets.clone();
        let r = self.ft_on_transfer(token, user, amount, actions);
        if r.is_err() {
            self.wallets = saved_wallets;
        }
        r
    }

    fn ft_on_transfer(
        &mut self,
        token: &String,
        user: &String,
        amount: u128,
        actions: Vec<Action>,
    ) -> Result<(), Failure> {
        let saved = self.contract.clone();
        self.take_from_wallet(token, user, amount)?;
        self.contract.set_block_timestamp(self.now);
        let mut account = self.contract.internal_unwrap_account(user).map_err(Failure::Ledger)?;
        self.contract
            .internal_ft_on_transfer(&mut account, token, amount)
            .map_err(Failure::Ledger)?;
        let effects = match self.contract.internal_execute(user, &mut account, actions, Prices::new())
        {
            Ok(effects) => effects,
            Err(e) => {
                self.contract = saved;
                return Err(Failure::Ledger(e));
            },
        };
        self.apply_affected_farms(&mut account);
        self.contract.internal_set_account(user, account);
        self.settle(effects);
        Ok(())
    }

    fn supply_to_collateral(&mut self, user: &String, token: &String, amount: u128) -> Result<
        (),
        Failure,
    > {
        self.contract_ft_transfer_call(token, user, amount, vec![])
    }

    fn deposit_and_repay(&mut self, user: &String, token: &String, amount: u128) -> Result<
        (),
        Failure,
    > {
        self.contract_ft_transfer_call(
            token,
            user,
            amount,
            vec![Action::Repay(asset_amount(token, amount))],
        )
    }

    /// A transfer of the non-fungible token `token_id` from `user` to the
    /// ledger.
    fn supply_nft_to_collateral(
        &mut self,
        user: &String,
        nft_contract_id: String,
        nft_token_id: String,
    ) -> Result<(), Failure> {
        let held = self.nfts.iter().position(|n| n.0 == nft_token_id);
        match held {
            Some(i) if &self.nfts[i].1 == user => {},
            _ => return Err(Failure::Token(a("Sender must be the token owner"))),
        }
        self.contract.set_block_timestamp(self.now);
        self.contract
            .internal_nft_on_transfer(user, &nft_contract_id, &nft_token_id)
            .map_err(Failure::Ledger)?;
        let mut account = self.contract.internal_unwrap_account(user).map_err(Failure::Ledger)?;
        self.apply_affected_farms(&mut account);
        self.contract.internal_set_account(user, account);
        self.nfts.remove(held.unwrap());
        Ok(())
    }

    /// Does what the ledger left to do: sends the tokens, and settles the
    /// farms of the accounts that were liquidated.
    fn settle(&mut self, effects: Vec<Effect>) {
        for effect in &effects {
            match effect {
                Effect::FtTransfer { account_id, token_id, amount } => {
                    let asset = self.contract.internal_unwrap_asset(token_id).unwrap();
                    let ft_amount = asset.amount_from_internal(*amount);
                    let balance = self.balance_of(token_id, account_id);
                    self.set_balance(token_id, account_id, balance + ft_amount);
                },
                Effect::NftTransfer { account_id, nft_contract_id: _, token_id } => {
                    self.nfts.push((token_id.clone(), account_id.clone()));
                },
                Effect::Emit(event) => {
                    let target = match event {
                        Event::Liquidate { liquidation_account_id, .. } => Some(
                            liquidation_account_id.clone(),
                        ),
                        Event::ForceClose { liquidation_account_id, .. } => Some(
                            liquidation_account_id.clone(),
                        ),
                        _ => None,
                    };
                    if let Some(target) = target {
                        let mut account = self.contract.internal_unwrap_account(&target).unwrap();
                        self.apply_affected_farms(&mut account);
                        self.contract.internal_set_account(&target, account);
                    }
                },
            }
        }
        self.last_effects = effects;
    }

    /// The oracle calls the ledger with prices and the batch of `user`.
    fn oracle_call(&mut self, user: &String, price_data: PriceData, actions: Vec<Action>) -> Result<
        (),
        Failure,
    > {
        self.contract.set_block_timestamp(self.now);
        self.contract.validate_price_data(&price_data).map_err(Failure::Ledger)?;
        let mut account = self.contract.internal_unwrap_account(user).map_err(Failure::Ledger)?;
        let prices = Prices::from_price_data(&price_data);
        let effects = self.contract.internal_execute(user, &mut account, actions, prices).map_err(
            Failure::Ledger,
        )?;
        self.apply_affected_farms(&mut account);
        self.contract.internal_set_account(user, account);
        self.settle(effects);
        Ok(())
    }

    /// The farm as it is stored, brought up to the present time.
    fn internal_get_asset_farm(&self, farm_id: &FarmId, is_view: bool) -> Option<AssetFarm> {
        let stored = self.asset_farms.iter().find(|f| &f.0 == farm_id)?;
        let mut farm = stored.1.clone();
        farm.update(self.now, is_view).unwrap();
        Some(farm)
    }

    fn internal_set_asset_farm(&mut self, farm_id: &FarmId, farm: AssetFarm) {
        match self.asset_farms.iter().position(|f| &f.0 == farm_id) {
            Some(i) => self.asset_farms[i].1 = farm,
            None => self.asset_farms.push((farm_id.clone(), farm)),
        }
    }

    /// What the account's stake of booster tokens adds to its shares in
    /// each reward of the farm.
    fn boosts(&self, account: &Account, farm_id: &FarmId, farm: &AssetFarm) -> StrMap<u128> {
        let shares = account.get_farm_shares(farm_id);
        let booster_balance = account.booster_staking.map(|b| b.x_booster_amount).unwrap_or(0);
        let booster_base = 10u128.pow(BOOSTER_TOKEN_DECIMALS as u32);
        let mut boosts = StrMap::new();
        for i in 0..farm.rewards.len() {
            let reward = farm.rewards.value_at(i);
            if reward.booster_log_base > 0 && booster_balance > booster_base {
                let log_base = (reward.booster_log_base as f64) / (booster_base as f64);
                let extra = ((shares as f64)
                    * ((booster_balance as f64) / (booster_base as f64)).log(log_base))
                    as u128;
                boosts.insert(farm.rewards.key_at(i).clone(), extra);
            }
        }
        boosts
    }

    /// Settles the farms that are marked in the account, as the contract
    /// around the ledger does: it reads and stores the farms and sends
    /// what was claimed.
    fn apply_affected_farms(&mut self, account: &mut Account) {
        self.contract.set_block_timestamp(self.now);
        let mut all_rewards: StrMap<u128> = StrMap::new();
        let mut farms = vec![];
        let mut farm_ids = account.affected_farms.clone();
        while let Some(farm_id) = farm_ids.pop() {
            if let Some(asset_farm) = self.internal_get_asset_farm(&farm_id, false) {
                let (account_farm, new_rewards, inactive_rewards) = self
                    .contract
                    .internal_account_farm_claim(account, &farm_id, &asset_farm)
                    .unwrap();
                let added = account.internal_note_rewards(&mut all_rewards, &new_rewards).unwrap();
                farm_ids.extend(added);
                farms.push((farm_id, account_farm, asset_farm, inactive_rewards));
            }
        }
        for i in 0..all_rewards.len() {
            let token = all_rewards.key_at(i).clone();
            let balance = self.balance_of(&token, &account.account_id);
            self.set_balance(&token, &account.account_id, balance + *all_rewards.value_at(i));
        }
        for (farm_id, account_farm, mut asset_farm, inactive_rewards) in farms {
            let boosts = self.boosts(account, &farm_id, &asset_farm);
            self.contract
                .internal_account_farm_settle(
                    account,
                    &farm_id,
                    account_farm,
                    &mut asset_farm,
                    &inactive_rewards,
                    &boosts,
                )
                .unwrap();
            self.internal_set_asset_farm(&farm_id, asset_farm);
        }
        account.affected_farms.clear();
    }

    fn add_farm(
        &mut self,
        farm_id: FarmId,
        reward_token: &String,
        new_reward_per_day: u128,
        new_booster_log_base: u128,
        reward_amount: u128,
    ) {
        let mut farm = self
            .internal_get_asset_farm(&farm_id, false)
            .unwrap_or_else(|| AssetFarm::new(self.now));
        farm.add_reward(reward_token, new_reward_per_day, new_booster_log_base, reward_amount)
            .unwrap();
        self.internal_set_asset_farm(&farm_id, farm);
    }

    fn account_farm_claim_all(&mut self, user: &String) -> Result<(), Failure> {
        self.contract.set_block_timestamp(self.now);
        let mut account = self.contract.internal_unwrap_account(user).map_err(Failure::Ledger)?;
        for farm_id in account.get_all_potential_farms() {
            account.add_affected_farm(farm_id);
        }
        self.apply_affected_farms(&mut account);
        self.contract.internal_set_account(user, account);
        Ok(())
    }

    fn account_stake_booster(&mut self, user: &String, amount: u128, duration: u32) -> Result<
        (),
        Failure,
    > {
        self.contract.set_block_timestamp(self.now);
        let mut account = self.contract.internal_unwrap_account(user).map_err(Failure::Ledger)?;
        self.contract
            .internal_account_stake_booster(&mut account, Some(amount), duration)
            .map_err(Failure::Ledger)?;
        self.apply_affected_farms(&mut account);
        self.contract.internal_set_account(user, account);
        Ok(())
    }

    fn account_unstake_booster(&mut self, user: &String) -> Result<(), Failure> {
        self.contract.set_block_timestamp(self.now);
        let mut account = self.contract.internal_unwrap_account(user).map_err(Failure::Ledger)?;
        self.contract.internal_account_unstake_booster(&mut account).map_err(Failure::Ledger)?;
        self.apply_affected_farms(&mut account);
        self.contract.internal_set_account(user, account);
        Ok(())
    }

    fn nel_balance_of(&self, user: &String) -> U128 {
        U128(self.balance_of(&self.booster_token, user))
    }

    fn borrow(&mut self, user: &String, token: &String, price_data: PriceData, amount: u128) -> Result<
        (),
        Failure,
    > {
        self.oracle_call(user, price_data, vec![Action::Borrow(asset_amount(token, amount))])
    }

    fn withdraw(&mut self, user: &String, token: &String, price_data: PriceData, amount: u128) -> Result<
        (),
        Failure,
    > {
        self.oracle_call(user, price_data, vec![Action::Withdraw(asset_amount(token, amount))])
    }

    fn withdraw_nft(
        &mut self,
        user: &String,
        price_data: PriceData,
        nft_contract_id: String,
        nft_token_id: String,
    ) -> Result<(), Failure> {
        self.oracle_call(
            user,
            price_data,
            vec![Action::WithdrawNFT(nft_asset(nft_contract_id, nft_token_id))],
        )
    }

    fn borrow_and_withdraw(
        &mut self,
        user: &String,
        token: &String,
        price_data: PriceData,
        amount: u128,
    ) -> Result<(), Failure> {
        self.oracle_call(
            user,
            price_data,
            vec![
                Action::Borrow(asset_amount(token, amount)),
                Action::Withdraw(asset_amount(token, amount)),
            ],
        )
    }

    fn borrow_and_withdraw_nft(
        &mut self,
        user: &String,
        token: &String,
        price_data: PriceData,
        amount: u128,
        nft_contract_id: String,
        nft_token_id: String,
    ) -> Result<(), Failure> {
        self.oracle_call(
            user,
            price_data,
            vec![
                Action::Borrow(asset_amount(token, amount)),
                Action::Withdraw(asset_amount(token, amount)),
                Action::WithdrawNFT(nft_asset(nft_contract_id, nft_token_id)),
            ],
        )
    }

    fn liquidate(
        &mut self,
        user: &String,
        liquidation_user: &String,
        price_data: PriceData,
        in_assets: Vec<AssetAmount>,
        out_assets: Vec<AssetAmount>,
    ) -> Result<(), Failure> {
        self.oracle_call(
            user,
            price_data,
            vec![Action::Liquidate { account_id: liquidation_user.clone(), in_assets, out_assets }],
        )
    }

    fn liquidate_nft(
        &mut self,
        user: &String,
        liquidation_user: &String,
        price_data: PriceData,
        in_assets: Vec<AssetAmount>,
        out_nft_assets: Vec<NFTAsset>,
    ) -> Result<(), Failure> {
        self.oracle_call(
            user,
            price_data,
            vec![
                Action::LiquidateNFT {
                    account_id: liquidation_user.clone(),
                    in_assets,
                    out_nft_assets,
                },
            ],
        )
    }

    fn force_close(&mut self, user: &String, liquidation_user: &String, price_data: PriceData) -> Result<
        (),
        Failure,
    > {
        self.oracle_call(
            user,
            price_data,
            vec![Action::ForceClose { account_id: liquidation_user.clone() }],
        )
    }

    fn skip_time(&mut self, seconds: u32) {
        self.now += to_nano(seconds);
    }

    fn get_asset(&mut self, token: &String) -> AssetDetailedView {
        self.contract.set_block_timestamp(self.now);
        let asset = self.contract.internal_unwrap_asset(token).unwrap();
        AssetDetailedView {
            supplied: asset.supplied,
            borrowed: asset.borrowed,
            nft_supplied: asset.nft_supplied.clone(),
            reserved: asset.reserved,
            supply_apr: asset.get_supply_apr().unwrap(),
            borrow_apr: asset.get_borrow_apr().unwrap(),
            farms: self.farm_views(token),
        }
    }

    /// The farms of the asset, as they would be now.
    fn farm_views(&self, token: &String) -> Vec<AssetFarmView> {
        let farm_ids = vec![
            FarmId::Supplied(token.clone()),
            FarmId::Borrowed(token.clone()),
            FarmId::SuppliedNFT(token.clone()),
        ];
        let mut views = vec![];
        for farm_id in farm_ids {
            if let Some(farm) = self.internal_get_asset_farm(&farm_id, true) {
                let mut rewards = HashMap::new();
                for i in 0..farm.rewards.len() {
                    rewards.insert(farm.rewards.key_at(i).clone(), *farm.rewards.value_at(i));
                }
                views.push(AssetFarmView { farm_id, rewards });
            }
        }
        views
    }

    fn get_account(&mut self, user: &String) -> AccountDetailedView {
        self.contract.set_block_timestamp(self.now);
        let account = self.contract.internal_unwrap_account(user).unwrap();
        let mut farm_ids: Vec<FarmId> = account.farms.iter().map(|f| f.farm_id.clone()).collect();
        farm_ids.extend(account.get_all_potential_farms());
        let mut farms = vec![];
        for farm_id in farm_ids {
            if let Some(farm) = self.internal_get_asset_farm(&farm_id, true) {
                farms.push((farm_id, farm));
            }
        }
        self.contract.account_into_detailed_view(account, &farms).unwrap()
    }

    /// The prices of the tests: the stable tokens at one, and the others as
    /// given.
    fn price_data(
        &self,
        tokens: &Tokens,
        wnear_mul: Option<u128>,
        neth_mul: Option<u128>,
        nft_mul: Option<u128>,
    ) -> PriceData {
        let mut prices = vec![
            AssetOptionalPrice {
                asset_id: tokens.ndai.clone(),
                price: Some(Price { multiplier: 10000, decimals: 22 }),
            },
            AssetOptionalPrice {
                asset_id: tokens.nusdc.clone(),
                price: Some(Price { multiplier: 10000, decimals: 10 }),
            },
            AssetOptionalPrice {
                asset_id: tokens.nusdt.clone(),
                price: Some(Price { multiplier: 10000, decimals: 10 }),
            },
        ];
        if let Some(wnear_mul) = wnear_mul {
            prices.push(
                AssetOptionalPrice {
                    asset_id: tokens.wnear.clone(),
                    price: Some(Price { multiplier: wnear_mul, decimals: 28 }),
                },
            );
        }
        if let Some(neth_mul) = neth_mul {
            prices.push(
                AssetOptionalPrice {
                    asset_id: tokens.neth.clone(),
                    price: Some(Price { multiplier: neth_mul, decimals: 22 }),
                },
            );
        }
        if let Some(nft_mul) = nft_mul {
            prices.push(
                AssetOptionalPrice {
                    asset_id: a(NFT_ID),
                    price: Some(Price { multiplier: nft_mul, decimals: 28 }),
                },
            );
        }
        PriceData { timestamp: self.now, recency_duration_sec: 90, prices }
    }
}

fn basic_setup() -> (Env, Tokens, Users) {
    let mut e = Env::init();
    let tokens = Tokens::init(&mut e);
    e.setup_assets(&tokens);
    e.deposit_reserves(&tokens);
    let users = Users::init(&e);
    e.mint_tokens(&tokens, &users.alice);
    e.storage_deposit(&users.alice);
    e.mint_tokens(&tokens, &users.bob);
    e.storage_deposit(&users.bob);
    e.mint_tokens(&tokens, &users.charlie);
    e.storage_deposit(&users.charlie);
    (e, tokens, users)
}

fn asset_amount(token: &String, amount: u128) -> AssetAmount {
    AssetAmount { token_id: token.clone(), amount: Some(amount), max_amount: None }
}

fn nft_asset(nft_contract_id: String, token_id: String) -> NFTAsset {
    NFTAsset { nft_contract_id, token_id }
}

fn find_asset<'a>(assets: &'a [AssetView], token_id: &String) -> &'a AssetView {
    let msg = format!("Missing asset: {:?}", token_id);
    match assets.iter().find(|e| &e.token_id == token_id) {
        Some(x) => x,
        None => panic!("{}", msg),
    }
}

fn assert_balances(actual: &[AssetView], expected: &[(String, u128)]) {
    assert_eq!(actual.len(), expected.len());
    for asset in actual {
        let wanted = match expected.iter().find(|e| e.0 == asset.token_id) {
            Some(x) => x.1,
            None => panic!("Missing asset: {:?}", asset.token_id),
        };
        assert_eq!(asset.balance, wanted);
    }
}

fn av(token_id: &String, balance: u128) -> (String, u128) {
    (token_id.clone(), balance)
}

/// The decimal as a floating-point number.
fn f64_of(x: &BigDecimal) -> f64 {
    let (whole, fraction) = x.parts().unwrap();
    whole as f64 + (fraction as f64) / 1e27
}

/// The decimal in digits.
fn text_of(x: &BigDecimal) -> String {
    x.to_text()
}

fn relative_eq(x: f64, y: f64) -> bool {
    if x == y {
        return true;
    }
    let diff = (x - y).abs();
    if diff <= f64::EPSILON {
        return true;
    }
    let largest = if x.abs() > y.abs() { x.abs() } else { y.abs() };
    diff <= largest * f64::EPSILON
}

/// The part `ratio / 10000` of an amount, rounded.
fn ratio_part(amount: u128, ratio: u32) -> u128 {
    BigDecimal::from_u128(amount).mul_ratio(ratio).unwrap().round_u128().unwrap()
}

fn positive(x: &BigDecimal) -> bool {
    x.gt(&BigDecimal::zero())
}

#[test]
fn test_init_env() {
    let mut e = Env::init();
    let _tokens = Tokens::init(&mut e);
    let _users = Users::init(&e);
}

#[test]
fn test_mint_tokens() {
    let mut e = Env::init();
    let tokens = Tokens::init(&mut e);
    let users = Users::init(&e);
    e.mint_tokens(&tokens, &users.alice);
}

#[test]
fn test_dev_setup() {
    let mut e = Env::init();
    let tokens = Tokens::init(&mut e);
    e.setup_assets(&tokens);
    e.deposit_reserves(&tokens);

    let asset = e.get_asset(&tokens.wnear);
    assert_eq!(asset.reserved, d(10000, 24));
}

#[test]
fn test_supply() {
    let (mut e, tokens, users) = basic_setup();

    let amount = d(100, 24);
    e.contract_ft_transfer_call(&tokens.wnear, &users.alice, amount, vec![]).unwrap();

    let asset = e.get_asset(&tokens.wnear);
    assert_eq!(asset.supplied.balance, amount);

    let account = e.get_account(&users.alice);
    assert_eq!(account.supplied[0].balance, amount);
    assert_eq!(account.supplied[0].token_id, tokens.wnear);
}

#[test]
fn test_deposit() {
    let (mut e, tokens, users) = basic_setup();

    let supply_amount = d(100, 24);
    e.supply_to_collateral(&users.alice, &tokens.wnear, supply_amount).unwrap();
    let asset = e.get_asset(&tokens.wnear);
    assert_eq!(asset.supplied.balance, supply_amount.clone());
}

#[test]
fn test_deposit_greate_than_the_balance() {
    let (mut e, tokens, users) = basic_setup();

    let supply_amount = d(10000000, 24);
    let _ = e.supply_to_collateral(&users.alice, &tokens.wnear, supply_amount);

    let asset = e.get_asset(&tokens.wnear);
    assert_eq!(asset.supplied.balance, 0);
    let balance = e.get_balance(&tokens.wnear, &users.alice);
    println!("balance : {:?}", balance);
    println!("supply amount: {}", supply_amount);
}

#[test]
fn test_borrow() {
    let (mut e, tokens, users) = basic_setup();
    let supply_amount = d(100, 24);
    e.supply_to_collateral(&users.alice, &tokens.wnear, supply_amount).unwrap();

    let borrow_amount = d(200, 18);
    let prices = e.price_data(&tokens, Some(100000), None, None);
    e.borrow(&users.alice, &tokens.ndai, prices, borrow_amount).unwrap();
    let asset = e.get_asset(&tokens.ndai);
    assert_eq!(asset.borrowed.balance, borrow_amount);
    assert!(positive(&asset.borrow_apr));
    assert_eq!(asset.supplied.balance, borrow_amount);
    assert!(positive(&asset.supply_apr));

    let account = e.get_account(&users.alice);
    assert_eq!(account.supplied[1].balance, borrow_amount);
    assert_eq!(account.supplied[1].token_id, tokens.ndai);
    assert!(positive(&account.supplied[1].apr));
    assert_eq!(account.borrowed[0].balance, borrow_amount);
    assert_eq!(account.borrowed[0].token_id, tokens.ndai);
    assert!(positive(&account.borrowed[0].apr));
}

#[test]
fn test_borrow_with_price_data_none() {
    let (mut e, tokens, users) = basic_setup();
    let supply_amount = d(100, 24);
    e.supply_to_collateral(&users.alice, &tokens.wnear, supply_amount).unwrap();
    let borrow_amount = d(200, 18);

    let prices = e.price_data(&tokens, None, None, None);
    let res = e.borrow(&users.alice, &tokens.ndai, prices, borrow_amount);
    assert_eq!(res, Err(Failure::Ledger(Error::MissingPrice)));
    let asset = e.get_asset(&tokens.ndai);
    assert_eq!(asset.borrowed.balance, 0);
}

#[test]
fn test_borrow_greater_than_collateral() {
    let (mut e, tokens, users) = basic_setup();

    let supply_amount = d(100, 24);
    let supply_amount1 = d(100000, 24);
    e.supply_to_collateral(&users.alice, &tokens.wnear, supply_amount).unwrap();
    e.supply_to_collateral(&users.bob, &tokens.wnear, supply_amount1).unwrap();
    let borrow_amount = d(20000, 18);

    let prices = e.price_data(&tokens, Some(100000), None, None);
    let res = e.borrow(&users.alice, &tokens.ndai, prices, borrow_amount);
    assert!(res.is_err());
    let asset = e.get_asset(&tokens.ndai);
    println!("borrowed balance : {:?}", asset.borrowed.balance);
    println!("borrow apr: {:?}", asset.borrow_apr);
    println!("supply apr: {:?}", asset.supply_apr);
    assert_eq!(asset.borrowed.balance, 0);
}

#[test]
fn test_borrow_and_withdraw() {
    let (mut e, tokens, users) = basic_setup();

    let supply_amount = d(100, 24);
    e.supply_to_collateral(&users.alice, &tokens.wnear, supply_amount).unwrap();

    let borrow_amount = d(200, 18);
    let prices = e.price_data(&tokens, Some(100000), None, None);
    e.borrow_and_withdraw(&users.alice, &tokens.ndai, prices, borrow_amount).unwrap();

    let asset = e.get_asset(&tokens.ndai);
    assert_eq!(asset.borrowed.balance, borrow_amount);
    assert!(positive(&asset.borrow_apr));
    assert_eq!(asset.supplied.balance, 0);
    assert_eq!(asset.supply_apr, BigDecimal::zero());

    let account = e.get_account(&users.alice);
    assert_eq!(account.borrowed[0].balance, borrow_amount);
    assert_eq!(account.borrowed[0].token_id, tokens.ndai);
    assert!(positive(&account.borrowed[0].apr));
}

#[test]
fn test_interest() {
    let (mut e, tokens, users) = basic_setup();

    let supply_amount = d(10000, 24);
    e.supply_to_collateral(&users.alice, &tokens.wnear, supply_amount).unwrap();

    let borrow_amount = d(8000, 18);
    let prices = e.price_data(&tokens, Some(100000), None, None);
    e.borrow_and_withdraw(&users.alice, &tokens.ndai, prices, borrow_amount).unwrap();

    let asset = e.get_asset(&tokens.ndai);
    assert_eq!(asset.borrowed.balance, borrow_amount);
    assert!(relative_eq(f64_of(&asset.borrow_apr), 0.08f64));

    e.skip_time(SEC_PER_YEAR);

    let expected_borrow_amount = borrow_amount * 108 / 100;

    let asset = e.get_asset(&tokens.ndai);
    assert!(relative_eq(asset.borrowed.balance as f64, expected_borrow_amount as f64));

    let account = e.get_account(&users.alice);
    assert!(relative_eq(account.borrowed[0].balance as f64, expected_borrow_amount as f64));
    assert_eq!(account.borrowed[0].token_id, tokens.ndai);
}

#[test]
fn test_liquidation_alice_by_bob() {
    let (mut e, tokens, users) = basic_setup();

    let extra_decimals_mult = d(1, 12);

    let supply_amount = d(1000, 18);
    e.supply_to_collateral(&users.alice, &tokens.nusdc, supply_amount / extra_decimals_mult)
        .unwrap();

    let borrow_amount = d(50, 24);
    let prices = e.price_data(&tokens, Some(100000), None, None);
    e.borrow_and_withdraw(&users.alice, &tokens.wnear, prices, borrow_amount).unwrap();

    let account = e.get_account(&users.alice);
    assert_balances(&account.supplied, &[av(&tokens.nusdc, supply_amount)]);
    assert_balances(&account.borrowed, &[av(&tokens.wnear, borrow_amount)]);
    assert!(positive(&find_asset(&account.borrowed, &tokens.wnear).apr));

    let bobs_amount = d(100, 24);
    e.contract_ft_transfer_call(&tokens.wnear, &users.bob, bobs_amount, vec![]).unwrap();

    let account = e.get_account(&users.bob);
    assert_balances(&account.supplied, &[av(&tokens.wnear, bobs_amount)]);
    assert!(positive(&find_asset(&account.supplied, &tokens.wnear).apr));

    let wnear_amount_in = d(49, 23);
    let usdc_amount_out = d(60, 18);
    let prices = e.price_data(&tokens, Some(120000), None, None);
    e.liquidate(
        &users.bob,
        &users.alice,
        prices,
        vec![asset_amount(&tokens.wnear, wnear_amount_in)],
        vec![asset_amount(&tokens.nusdc, usdc_amount_out)],
    )
    .unwrap();

    let account = e.get_account(&users.alice);
    assert_balances(&account.supplied, &[av(&tokens.nusdc, supply_amount - usdc_amount_out)]);
    assert_balances(&account.borrowed, &[av(&tokens.wnear, borrow_amount - wnear_amount_in)]);
    assert!(positive(&find_asset(&account.borrowed, &tokens.wnear).apr));

    let account = e.get_account(&users.bob);
    assert_balances(
        &account.supplied,
        &[av(&tokens.wnear, bobs_amount - wnear_amount_in), av(&tokens.nusdc, usdc_amount_out)],
    );
    assert!(positive(&find_asset(&account.supplied, &tokens.wnear).apr));
    assert_eq!(find_asset(&account.supplied, &tokens.nusdc).apr, BigDecimal::zero());
}

#[test]
fn test_liquidation_decrease_health_factor() {
    let (mut e, tokens, users) = basic_setup();

    let extra_decimals_mult = d(1, 12);

    let supply_amount = d(1000, 18);
    e.supply_to_collateral(&users.alice, &tokens.nusdc, supply_amount / extra_decimals_mult)
        .unwrap();

    let wnear_borrow_amount = d(50, 24);
    let prices = e.price_data(&tokens, Some(100000), None, None);
    e.borrow_and_withdraw(&users.alice, &tokens.wnear, prices, wnear_borrow_amount).unwrap();

    let usdt_borrow_amount = d(50, 18);
    let prices = e.price_data(&tokens, Some(100000), None, None);
    e.borrow_and_withdraw(&users.alice, &tokens.nusdt, prices, usdt_borrow_amount).unwrap();

    let account = e.get_account(&users.alice);
    assert_balances(&account.supplied, &[av(&tokens.nusdc, supply_amount)]);
    assert_balances(
        &account.borrowed,
        &[av(&tokens.wnear, wnear_borrow_amount), av(&tokens.nusdt, usdt_borrow_amount)],
    );
    assert!(positive(&find_asset(&account.borrowed, &tokens.wnear).apr));
    assert!(positive(&find_asset(&account.borrowed, &tokens.nusdt).apr));

    let wnear_bobs_amount = d(100, 24);
    e.contract_ft_transfer_call(&tokens.wnear, &users.bob, wnear_bobs_amount, vec![]).unwrap();

    let usdt_bobs_amount = d(100, 18);
    e.contract_ft_transfer_call(
        &tokens.nusdt,
        &users.bob,
        usdt_bobs_amount / extra_decimals_mult,
        vec![],
    )
    .unwrap();

    let account = e.get_account(&users.bob);
    assert_balances(
        &account.supplied,
        &[av(&tokens.wnear, wnear_bobs_amount), av(&tokens.nusdt, usdt_bobs_amount)],
    );
    assert!(positive(&find_asset(&account.supplied, &tokens.wnear).apr));
    assert!(positive(&find_asset(&account.supplied, &tokens.nusdt).apr));

    let usdt_amount_in = d(49, 18);
    let usdc_amount_out = d(50, 18);
    let prices = e.price_data(&tokens, Some(120000), None, None);
    let res = e.liquidate(
        &users.bob,
        &users.alice,
        prices,
        vec![asset_amount(&tokens.nusdt, usdt_amount_in)],
        vec![asset_amount(&tokens.nusdc, usdc_amount_out)],
    );
    match res {
        Err(Failure::Ledger(err)) => assert_eq!(err, Error::HealthNotImproved),
        _ => panic!("Should fail with liquidation health error"),
    }

    let wnear_amount_in = d(49, 23);
    let usdt_amount_in = d(50, 18);
    let usdc_amount_out = d(111, 18);
    let prices = e.price_data(&tokens, Some(120000), None, None);
    e.liquidate(
        &users.bob,
        &users.alice,
        prices,
        vec![asset_amount(&tokens.wnear, wnear_amount_in), asset_amount(&tokens.nusdt, usdt_amount_in)],
        vec![asset_amount(&tokens.nusdc, usdc_amount_out)],
    )
    .unwrap();

    let event = match &e.last_effects[0] {
        Effect::Emit(event) => event,
        _ => panic!("Failed to parse the event"),
    };
    assert_eq!(nearlend::events::EVENT_STANDARD, "nearlend");
    assert_eq!(event.name(), "liquidate");
    match event {
        Event::Liquidate { account_id, liquidation_account_id, collateral_sum, repaid_sum } => {
            assert_eq!(account_id.as_str(), users.bob.as_str());
            assert_eq!(liquidation_account_id.as_str(), users.alice.as_str());
            assert_eq!(text_of(collateral_sum), "111.0");
            assert_eq!(text_of(repaid_sum), "108.8");
        },
        _ => panic!("Failed to parse the event"),
    }

    let account = e.get_account(&users.alice);
    assert_balances(&account.supplied, &[av(&tokens.nusdc, supply_amount - usdc_amount_out)]);
    assert_balances(&account.borrowed, &[av(&tokens.wnear, wnear_borrow_amount - wnear_amount_in)]);
    assert!(positive(&find_asset(&account.borrowed, &tokens.wnear).apr));

    let account = e.get_account(&users.bob);
    assert_balances(
        &account.supplied,
        &[
            av(&tokens.wnear, wnear_bobs_amount - wnear_amount_in),
            av(&tokens.nusdt, usdt_bobs_amount - usdt_amount_in),
            av(&tokens.nusdc, usdc_amount_out),
        ],
    );
    assert!(positive(&find_asset(&account.supplied, &tokens.wnear).apr));
    assert_eq!(find_asset(&account.supplied, &tokens.nusdt).apr, BigDecimal::zero());
    assert_eq!(find_asset(&account.supplied, &tokens.nusdc).apr, BigDecimal::zero());
}

#[test]
fn test_force_close() {
    let (mut e, tokens, users) = basic_setup();

    let extra_decimals_mult = d(1, 12);

    let supply_amount = d(1000, 18);
    e.supply_to_collateral(&users.alice, &tokens.nusdc, supply_amount / extra_decimals_mult)
        .unwrap();

    let borrow_amount = d(50, 24);
    let prices = e.price_data(&tokens, Some(100000), None, None);
    e.borrow_and_withdraw(&users.alice, &tokens.wnear, prices, borrow_amount).unwrap();

    let asset = e.get_asset(&tokens.nusdc);
    let usdc_reserve = asset.reserved;

    let asset = e.get_asset(&tokens.wnear);
    let wnear_reserve = asset.reserved;

    let prices = e.price_data(&tokens, Some(120000), None, None);
    let res = e.force_close(&users.bob, &users.alice, prices);
    match res {
        Err(Failure::Ledger(err)) => assert_eq!(err, Error::NotBadDebt),
        _ => panic!("Should fail"),
    }

    let prices = e.price_data(&tokens, Some(250000), None, None);
    e.force_close(&users.bob, &users.alice, prices).unwrap();
    let event = match &e.last_effects[0] {
        Effect::Emit(event) => event,
        _ => panic!("Failed to parse the event"),
    };
    assert_eq!(nearlend::events::EVENT_STANDARD, "nearlend");
    assert_eq!(event.name(), "force_close");
    match event {
        Event::ForceClose { liquidation_account_id, collateral_sum, repaid_sum } => {
            assert_eq!(liquidation_account_id.as_str(), users.alice.as_str());
            assert_eq!(text_of(collateral_sum), "1000.0");
            assert_eq!(text_of(repaid_sum), "1250.0");
        },
        _ => panic!("Failed to parse the event"),
    }

    let account = e.get_account(&users.alice);
    assert!(account.supplied.is_empty());
    assert!(account.borrowed.is_empty());

    let asset = e.get_asset(&tokens.nusdc);
    assert_eq!(asset.reserved, usdc_reserve + supply_amount);

    let asset = e.get_asset(&tokens.wnear);
    assert_eq!(asset.reserved, wnear_reserve - borrow_amount);
}

#[test]
fn test_deposit_nft() {
    let (mut e, _, users) = basic_setup();

    e.mint_nft(&users.alice, "1".to_string());
    e.mint_nft(&users.alice, "2".to_string());

    e.supply_nft_to_collateral(&users.alice, e.nft_contract.clone(), "2".to_string()).unwrap();

    let account = e.get_account(&users.alice);
    assert_eq!(account.nft_supplied[0].nft_contract_id, e.nft_contract);
    assert_eq!(account.nft_supplied[0].nft_token_id, "2".to_string());

    let nft_contract = e.nft_contract.clone();
    let asset = e.get_asset(&nft_contract);
    assert_eq!(asset.nft_supplied[0].owner_id, users.alice);
    assert_eq!(asset.nft_supplied[0].token_id, "2".to_string());
}

#[test]
fn test_deposit_nft_fail() {
    let (mut e, _, users) = basic_setup();

    e.mint_nft(&users.alice, "1".to_string());
    e.mint_nft(&users.bob, "2".to_string());

    let res = e.supply_nft_to_collateral(&users.alice, e.nft_contract.clone(), "2".to_string());

    let err = match res {
        Err(Failure::Token(e)) => e,
        _ => panic!("Should fail with error"),
    };
    assert!(err.contains("Sender must be the token owner"));

    let account = e.get_account(&users.alice);
    assert_eq!(account.nft_supplied.len(), 0);

    let nft_contract = e.nft_contract.clone();
    let asset = e.get_asset(&nft_contract);
    assert_eq!(asset.nft_supplied.len(), 0);
}

#[test]
fn test_withdraw_nft() {
    let (mut e, tokens, users) = basic_setup();
    let nft_contract = e.nft_contract.clone();

    e.mint_nft(&users.alice, "1".to_string());
    e.mint_nft(&users.alice, "2".to_string());

    e.supply_nft_to_collateral(&users.alice, nft_contract.clone(), "1".to_string()).unwrap();

    let account = e.get_account(&users.alice);
    assert_eq!(account.nft_supplied[0].nft_contract_id, nft_contract);
    assert_eq!(account.nft_supplied[0].nft_token_id, "1".to_string());

    let asset = e.get_asset(&nft_contract);
    assert_eq!(asset.nft_supplied[0].owner_id, users.alice);
    assert_eq!(asset.nft_supplied[0].token_id, "1".to_string());

    let prices = e.price_data(&tokens, None, None, Some(100000));
    e.withdraw_nft(&users.alice, prices, nft_contract.clone(), "1".to_string()).unwrap();

    let account = e.get_account(&users.alice);
    assert_eq!(account.nft_supplied.len(), 0);

    let asset = e.get_asset(&nft_contract);
    assert_eq!(asset.nft_supplied.len(), 0);
}

#[test]
fn test_withdraw_nft_not_in_pool() {
    let (mut e, tokens, users) = basic_setup();
    let nft_contract = e.nft_contract.clone();
    e.mint_nft(&users.alice, "1".to_string());
    e.mint_nft(&users.alice, "2".to_string());
    e.supply_nft_to_collateral(&users.alice, nft_contract.clone(), "2".to_string()).unwrap();
    let account = e.get_account(&users.alice);
    assert_eq!(account.nft_supplied[0].nft_contract_id, nft_contract);
    assert_eq!(account.nft_supplied[0].nft_token_id, "2".to_string());
    let asset = e.get_asset(&nft_contract);
    assert_eq!(asset.nft_supplied[0].owner_id, users.alice);
    assert_eq!(asset.nft_supplied[0].token_id, "2".to_string());
    let prices = e.price_data(&tokens, None, None, Some(100000));
    let res = e.withdraw_nft(&users.alice, prices, nft_contract.clone(), "1".to_string());
    match res {
        Err(Failure::Ledger(err)) => assert_eq!(err, Error::NftNotFound),
        _ => panic!("Should fail with error"),
    }
    let account = e.get_account(&users.alice);
    assert_eq!(account.nft_supplied[0].nft_contract_id, nft_contract);
    assert_eq!(account.nft_supplied[0].nft_token_id, "2".to_string());
    let asset = e.get_asset(&nft_contract);
    assert_eq!(asset.nft_supplied[0].owner_id, users.alice);
    assert_eq!(asset.nft_supplied[0].token_id, "2".to_string());
}

#[test]
fn test_withdraw_nft_not_owner() {
    let (mut e, tokens, users) = basic_setup();
    let nft_contract = e.nft_contract.clone();
    e.mint_nft(&users.alice, "1".to_string());
    e.mint_nft(&users.bob, "2".to_string());
    e.supply_nft_to_collateral(&users.alice, nft_contract.clone(), "1".to_string()).unwrap();
    let account = e.get_account(&users.alice);
    assert_eq!(account.nft_supplied[0].nft_contract_id, nft_contract);
    assert_eq!(account.nft_supplied[0].nft_token_id, "1".to_string());
    let asset = e.get_asset(&nft_contract);
    assert_eq!(asset.nft_supplied[0].owner_id, users.alice);
    assert_eq!(asset.nft_supplied[0].token_id, "1".to_string());
    e.supply_nft_to_collateral(&users.bob, nft_contract.clone(), "2".to_string()).unwrap();
    let account = e.get_account(&users.bob);
    assert_eq!(account.nft_supplied[0].nft_contract_id, nft_contract);
    assert_eq!(account.nft_supplied[0].nft_token_id, "2".to_string());
    let asset = e.get_asset(&nft_contract);
    assert_eq!(asset.nft_supplied[1].owner_id, users.bob);
    assert_eq!(asset.nft_supplied[1].token_id, "2".to_string());
    let prices = e.price_data(&tokens, None, None, Some(100000));
    let res = e.withdraw_nft(&users.alice, prices, nft_contract.clone(), "2".to_string());
    match res {
        Err(Failure::Ledger(err)) => assert_eq!(err, Error::NftNotOwner),
        _ => panic!("Should fail with error"),
    }
    let account = e.get_account(&users.alice);
    assert_eq!(account.nft_supplied[0].nft_contract_id, nft_contract);
    assert_eq!(account.nft_supplied[0].nft_token_id, "1".to_string());
    let account = e.get_account(&users.bob);
    assert_eq!(account.nft_supplied[0].nft_contract_id, nft_contract);
    assert_eq!(account.nft_supplied[0].nft_token_id, "2".to_string());
    let asset = e.get_asset(&nft_contract);
    assert_eq!(asset.nft_supplied[0].owner_id, users.alice);
    assert_eq!(asset.nft_supplied[0].token_id, "1".to_string());
    assert_eq!(asset.nft_supplied[1].owner_id, users.bob);
    assert_eq!(asset.nft_supplied[1].token_id, "2".to_string());
}

#[test]
fn test_withdraw_nft_fail_health_factor() {
    let (mut e, tokens, users) = basic_setup();
    let nft_contract = e.nft_contract.clone();

    let supply_amount = d(10, 24);
    e.supply_to_collateral(&users.alice, &tokens.wnear, supply_amount).unwrap();

    e.mint_nft(&users.alice, "1".to_string());
    e.supply_nft_to_collateral(&users.alice, nft_contract.clone(), "1".to_string()).unwrap();

    let account = e.get_account(&users.alice);
    assert_eq!(account.nft_supplied[0].nft_contract_id, nft_contract);
    assert_eq!(account.nft_supplied[0].nft_token_id, "1".to_string());

    let borrow_amount = d(60, 18);
    let prices = e.price_data(&tokens, Some(100000), None, Some(300000));
    e.borrow_and_withdraw(&users.alice, &tokens.ndai, prices, borrow_amount).unwrap();

    let prices = e.price_data(&tokens, Some(100000), None, Some(300000));
    let result = e.withdraw_nft(&users.alice, prices, nft_contract.clone(), "1".to_string());

    match result {
        Err(Failure::Ledger(err)) => assert_eq!(err, Error::Unhealthy),
        _ => panic!("Should fail with health error"),
    }

    let account = e.get_account(&users.alice);
    assert_eq!(account.nft_supplied[0].nft_contract_id, nft_contract);
    assert_eq!(account.nft_supplied[0].nft_token_id, "1".to_string());
}

#[test]
fn test_deposit_nft_borrow_ft() {
    let (mut e, tokens, users) = basic_setup();
    let nft_contract = e.nft_contract.clone();

    e.mint_nft(&users.alice, "1".to_string());
    e.mint_nft(&users.alice, "2".to_string());

    e.supply_nft_to_collateral(&users.alice, nft_contract.clone(), "1".to_string()).unwrap();

    let borrow_amount = d(8, 18);
    let prices = e.price_data(&tokens, Some(100000), None, Some(300000));
    e.borrow(&users.alice, &tokens.ndai, prices, borrow_amount).unwrap();

    let asset = e.get_asset(&tokens.ndai);
    assert_eq!(asset.borrowed.balance, borrow_amount);
    assert!(positive(&asset.borrow_apr));
    assert_eq!(asset.supplied.balance, borrow_amount);
    assert!(positive(&asset.supply_apr));

    let account = e.get_account(&users.alice);
    assert_eq!(account.supplied[0].balance, borrow_amount);
    assert_eq!(account.supplied[0].token_id, tokens.ndai);
    assert!(positive(&account.supplied[0].apr));

    assert_eq!(account.nft_supplied[0].nft_contract_id, nft_contract);
    assert_eq!(account.nft_supplied[0].nft_token_id, "1".to_string());

    assert_eq!(account.borrowed[0].balance, borrow_amount);
    assert_eq!(account.borrowed[0].token_id, tokens.ndai);
    assert!(positive(&account.borrowed[0].apr));
}

#[test]
fn test_borrow_and_withdraw_nft() {
    let (mut e, tokens, users) = basic_setup();
    let nft_contract = e.nft_contract.clone();
    e.mint_nft(&users.alice, "1".to_string());
    e.mint_nft(&users.alice, "2".to_string());
    e.supply_nft_to_collateral(&users.alice, nft_contract.clone(), "1".to_string()).unwrap();
    let supply_amount = d(100, 24);
    e.supply_to_collateral(&users.alice, &tokens.wnear, supply_amount).unwrap();
    let account = e.get_account(&users.alice);
    assert_eq!(account.nft_supplied[0].nft_contract_id, nft_contract);
    assert_eq!(account.nft_supplied[0].nft_token_id, "1".to_string());
    let asset = e.get_asset(&nft_contract);
    assert_eq!(asset.nft_supplied[0].owner_id, users.alice);
    assert_eq!(asset.nft_supplied[0].token_id, "1".to_string());
    let borrow_amount = d(200, 18);
    let prices = e.price_data(&tokens, Some(100000), None, Some(1000000));
    e.borrow_and_withdraw_nft(
        &users.alice,
        &tokens.ndai,
        prices,
        borrow_amount,
        nft_contract.clone(),
        "1".to_string(),
    )
    .unwrap();
    let asset = e.get_asset(&tokens.ndai);
    assert_eq!(asset.borrowed.balance, borrow_amount);
    assert!(positive(&asset.borrow_apr));
    assert_eq!(asset.supplied.balance, 0);
    assert_eq!(asset.supply_apr, BigDecimal::zero());
    let account = e.get_account(&users.alice);
    assert_eq!(account.nft_supplied.len(), 0);
    assert_eq!(account.borrowed[0].balance, borrow_amount);
    assert_eq!(account.borrowed[0].token_id, tokens.ndai);
    assert!(positive(&account.borrowed[0].apr));
}

#[test]
fn test_liquidation_nft_alice_by_bob() {
    let (mut e, tokens, users) = basic_setup();
    let nft_contract = e.nft_contract.clone();
    let extra_decimals_mult = d(1, 12);
    let supply_amount = d(1000, 18);
    e.supply_to_collateral(&users.alice, &tokens.nusdc, supply_amount / extra_decimals_mult)
        .unwrap();
    e.mint_nft(&users.alice, "1".to_string());
    e.supply_nft_to_collateral(&users.alice, nft_contract.clone(), "1".to_string()).unwrap();
    let borrow_amount = d(50, 24);
    let prices = e.price_data(&tokens, Some(100000), None, Some(300000));
    e.borrow_and_withdraw(&users.alice, &tokens.wnear, prices, borrow_amount).unwrap();
    let account = e.get_account(&users.alice);
    assert_balances(&account.supplied, &[av(&tokens.nusdc, supply_amount)]);
    assert_balances(&account.borrowed, &[av(&tokens.wnear, borrow_amount)]);
    assert!(positive(&find_asset(&account.borrowed, &tokens.wnear).apr));
    let bobs_amount = d(100, 24);
    e.contract_ft_transfer_call(&tokens.wnear, &users.bob, bobs_amount, vec![]).unwrap();
    let account = e.get_account(&users.bob);
    assert_balances(&account.supplied, &[av(&tokens.wnear, bobs_amount)]);
    assert!(positive(&find_asset(&account.supplied, &tokens.wnear).apr));
    let wnear_amount_in = d(245, 22);
    let prices = e.price_data(&tokens, Some(120000), None, Some(300000));
    e.liquidate_nft(
        &users.bob,
        &users.alice,
        prices,
        vec![asset_amount(&tokens.wnear, wnear_amount_in)],
        vec![nft_asset(nft_contract.clone(), "1".to_string())],
    )
    .unwrap();
    let account = e.get_account(&users.alice);
    assert_balances(&account.borrowed, &[av(&tokens.wnear, borrow_amount - wnear_amount_in)]);
    assert!(positive(&find_asset(&account.borrowed, &tokens.wnear).apr));
    assert_eq!(account.nft_supplied.len(), 0);
    let account = e.get_account(&users.bob);
    assert_balances(&account.supplied, &[av(&tokens.wnear, bobs_amount - wnear_amount_in)]);
    assert!(positive(&find_asset(&account.supplied, &tokens.wnear).apr));
    assert_eq!(account.nft_supplied[0].nft_contract_id, nft_contract);
    assert_eq!(account.nft_supplied[0].nft_token_id, "1".to_string());
}

#[test]
fn test_liquidation_nft_decrease_health_factor() {
    let (mut e, tokens, users) = basic_setup();
    let nft_contract = e.nft_contract.clone();
    e.update_asset(
        &tokens.wnear,
        AssetConfig {
            reserve_ratio: 2500,
            target_utilization: 8000,
            target_utilization_rate: 1000000000003593629036885046,
            max_utilization_rate: 1000000000039724853136740579,
            volatility_ratio: 9500,
            extra_decimals: 0,
            can_deposit: true,
            can_withdraw: true,
            can_use_as_collateral: true,
            can_borrow: true,
        },
    );
    e.update_asset(
        &nft_contract,
        AssetConfig {
            reserve_ratio: 2500,
            target_utilization: 8000,
            target_utilization_rate: 0,
            max_utilization_rate: 0,
            volatility_ratio: 9500,
            extra_decimals: 0,
            can_deposit: true,
            can_withdraw: true,
            can_use_as_collateral: true,
            can_borrow: false,
        },
    );
    let extra_decimals_mult = d(1, 12);
    let supply_amount = d(1000, 18);
    e.supply_to_collateral(&users.alice, &tokens.nusdc, supply_amount / extra_decimals_mult)
        .unwrap();
    e.mint_nft(&users.alice, "1".to_string());
    e.supply_nft_to_collateral(&users.alice, nft_contract.clone(), "1".to_string()).unwrap();
    let wnear_borrow_amount = d(50, 24);
    let prices = e.price_data(&tokens, Some(100000), None, Some(300000));
    e.borrow_and_withdraw(&users.alice, &tokens.wnear, prices, wnear_borrow_amount).unwrap();
    let usdt_borrow_amount = d(50, 18);
    let prices = e.price_data(&tokens, Some(100000), None, Some(300000));
    e.borrow_and_withdraw(&users.alice, &tokens.nusdt, prices, usdt_borrow_amount).unwrap();
    let account = e.get_account(&users.alice);
    assert_balances(&account.supplied, &[av(&tokens.nusdc, supply_amount)]);
    assert_balances(
        &account.borrowed,
        &[av(&tokens.wnear, wnear_borrow_amount), av(&tokens.nusdt, usdt_borrow_amount)],
    );
    assert!(positive(&find_asset(&account.borrowed, &tokens.wnear).apr));
    assert!(positive(&find_asset(&account.borrowed, &tokens.nusdt).apr));
    let wnear_bobs_amount = d(100, 24);
    e.contract_ft_transfer_call(&tokens.wnear, &users.bob, wnear_bobs_amount, vec![]).unwrap();
    let usdt_bobs_amount = d(100, 18);
    e.contract_ft_transfer_call(
        &tokens.nusdt,
        &users.bob,
        usdt_bobs_amount / extra_decimals_mult,
        vec![],
    )
    .unwrap();
    let account = e.get_account(&users.bob);
    assert_balances(
        &account.supplied,
        &[av(&tokens.wnear, wnear_bobs_amount), av(&tokens.nusdt, usdt_bobs_amount)],
    );
    assert!(positive(&find_asset(&account.supplied, &tokens.wnear).apr));
    assert!(positive(&find_asset(&account.supplied, &tokens.nusdt).apr));
    let wnear_amount_in = d(15, 23);
    let prices = e.price_data(&tokens, Some(200000), None, Some(300000));
    let res = e.liquidate_nft(
        &users.bob,
        &users.alice,
        prices,
        vec![asset_amount(&tokens.wnear, wnear_amount_in)],
        vec![nft_asset(nft_contract.clone(), "1".to_string())],
    );
    match res {
        Err(Failure::Ledger(err)) => assert_eq!(err, Error::HealthNotImproved),
        _ => panic!("Should fail with liquidation health error"),
    }
    let account = e.get_account(&users.alice);
    assert_eq!(account.nft_supplied.len(), 1);
    assert_balances(
        &account.borrowed,
        &[av(&tokens.wnear, wnear_borrow_amount), av(&tokens.nusdt, usdt_borrow_amount)],
    );
    assert!(positive(&find_asset(&account.borrowed, &tokens.wnear).apr));
    let account = e.get_account(&users.bob);
    assert_balances(
        &account.supplied,
        &[av(&tokens.wnear, wnear_bobs_amount), av(&tokens.nusdt, usdt_bobs_amount)],
    );
    assert_eq!(account.nft_supplied.len(), 0);
}

#[test]
fn test_farm_supplied_3() {}

#[test]
fn test_farm_supplied_and_borrowed() {}

#[test]
fn test_version() {
    let (e, _tokens, _users) = basic_setup();

    let version: String = e.contract.get_version();

    assert_eq!(version, LATEST_VERSION);
}

#[test]
fn repay_beyond_the_supplied_balance_is_clamped() {
    let (mut e, tokens, users) = basic_setup();
    e.supply_to_collateral(&users.alice, &tokens.wnear, d(100, 24)).unwrap();
    let prices = e.price_data(&tokens, Some(100000), None, None);
    e.borrow_and_withdraw(&users.alice, &tokens.ndai, prices, d(200, 18)).unwrap();

    // the account supplies 50 and asks to repay up to 200 out of them
    e.contract_ft_transfer_call(
        &tokens.ndai,
        &users.alice,
        d(50, 18),
        vec![
            Action::Repay(
                AssetAmount {
                    token_id: tokens.ndai.clone(),
                    amount: None,
                    max_amount: Some(d(200, 18)),
                },
            ),
        ],
    )
    .unwrap();

    let account = e.get_account(&users.alice);
    assert_balances(&account.borrowed, &[av(&tokens.ndai, d(150, 18))]);
    assert_balances(&account.supplied, &[av(&tokens.wnear, d(100, 24))]);

    // a fixed amount that the balance does not cover is refused
    let res = e.deposit_and_repay(&users.alice, &tokens.ndai, d(10, 18)).and_then(
        |_| {
            e.contract_ft_transfer_call(
                &tokens.ndai,
                &users.alice,
                d(1, 18),
                vec![Action::Repay(asset_amount(&tokens.ndai, d(2, 18)))],
            )
        },
    );
    assert_eq!(res, Err(Failure::Ledger(Error::NotEnoughSuppliedBalance)));
}

#[test]
fn liquidation_that_repays_too_little_is_refused() {
    let (mut e, tokens, users) = basic_setup();
    let extra_decimals_mult = d(1, 12);
    e.supply_to_collateral(&users.alice, &tokens.nusdc, d(1000, 18) / extra_decimals_mult).unwrap();
    let prices = e.price_data(&tokens, Some(100000), None, None);
    e.borrow_and_withdraw(&users.alice, &tokens.wnear, prices, d(50, 24)).unwrap();
    e.contract_ft_transfer_call(&tokens.wnear, &users.bob, d(100, 24), vec![]).unwrap();

    let prices = e.price_data(&tokens, Some(120000), None, None);
    let res = e.liquidate(
        &users.bob,
        &users.alice,
        prices,
        vec![asset_amount(&tokens.wnear, d(49, 23))],
        vec![asset_amount(&tokens.nusdc, d(61, 18))],
    );
    assert_eq!(res, Err(Failure::Ledger(Error::NotEnoughRepaid)));

    let account = e.get_account(&users.alice);
    assert_balances(&account.supplied, &[av(&tokens.nusdc, d(1000, 18))]);
    assert_balances(&account.borrowed, &[av(&tokens.wnear, d(50, 24))]);
}

#[test]
fn account_without_debt_has_no_discount_at_any_price() {
    let (mut e, tokens, users) = basic_setup();
    e.supply_to_collateral(&users.alice, &tokens.wnear, d(100, 24)).unwrap();
    let account = e.contract.internal_unwrap_account(&users.alice).unwrap();
    for wnear_mul in [1u128, 100000, 100000000000] {
        let data = e.price_data(&tokens, Some(wnear_mul), None, None);
        let prices = Prices::from_price_data(&data);
        let discount = e.contract.compute_max_discount(&account, &account, &prices).unwrap();
        assert_eq!(discount, BigDecimal::zero());
    }
    let discount = e.contract.compute_max_discount(&account, &account, &Prices::new()).unwrap();
    assert_eq!(discount, BigDecimal::zero());
}

#[test]
fn liquidating_a_healthy_account_or_oneself_is_refused() {
    let (mut e, tokens, users) = basic_setup();
    let extra_decimals_mult = d(1, 12);
    e.supply_to_collateral(&users.alice, &tokens.nusdc, d(1000, 18) / extra_decimals_mult).unwrap();
    let prices = e.price_data(&tokens, Some(100000), None, None);
    e.borrow_and_withdraw(&users.alice, &tokens.wnear, prices, d(50, 24)).unwrap();
    e.contract_ft_transfer_call(&tokens.wnear, &users.bob, d(100, 24), vec![]).unwrap();

    let prices = e.price_data(&tokens, Some(100000), None, None);
    let res = e.liquidate(
        &users.bob,
        &users.alice,
        prices,
        vec![asset_amount(&tokens.wnear, d(49, 23))],
        vec![asset_amount(&tokens.nusdc, d(50, 18))],
    );
    assert_eq!(res, Err(Failure::Ledger(Error::NotAtRisk)));

    let prices = e.price_data(&tokens, Some(120000), None, None);
    let res = e.liquidate(
        &users.alice,
        &users.alice,
        prices,
        vec![asset_amount(&tokens.wnear, d(49, 23))],
        vec![asset_amount(&tokens.nusdc, d(50, 18))],
    );
    assert_eq!(res, Err(Failure::Ledger(Error::SelfLiquidation)));

    let prices = e.price_data(&tokens, Some(120000), None, None);
    let res = e.liquidate(&users.bob, &users.alice, prices, vec![], vec![]);
    assert_eq!(res, Err(Failure::Ledger(Error::EmptyAssets)));
}

#[test]
fn withdrawal_keeps_the_asset_solvent() {
    let (mut e, tokens, users) = basic_setup();
    e.supply_to_collateral(&users.alice, &tokens.wnear, d(100, 24)).unwrap();
    let prices = e.price_data(&tokens, Some(100000), None, None);
    e.borrow_and_withdraw(&users.alice, &tokens.ndai, prices, d(200, 18)).unwrap();
    let asset = e.contract.internal_unwrap_asset(&tokens.ndai).unwrap();
    assert_eq!(asset.available_amount(), Ok(d(10000, 18) - d(200, 18)));

    // more than the asset has left cannot be borrowed
    e.supply_to_collateral(&users.bob, &tokens.wnear, d(100000, 24)).unwrap();
    let prices = e.price_data(&tokens, Some(100000), None, None);
    let res = e.borrow(&users.bob, &tokens.ndai, prices, d(9801, 18));
    assert_eq!(res, Err(Failure::Ledger(Error::ExceededAvailable)));
}

#[test]
fn stale_prices_are_refused() {
    let (mut e, tokens, users) = basic_setup();
    e.supply_to_collateral(&users.alice, &tokens.wnear, d(100, 24)).unwrap();
    let prices = e.price_data(&tokens, Some(100000), None, None);
    e.skip_time(16);
    let res = e.borrow(&users.alice, &tokens.ndai, prices, d(1, 18));
    assert_eq!(res, Err(Failure::Ledger(Error::PriceTooStale)));

    let mut prices = e.price_data(&tokens, Some(100000), None, None);
    prices.timestamp += 1;
    let res = e.borrow(&users.alice, &tokens.ndai, prices, d(1, 18));
    assert_eq!(res, Err(Failure::Ledger(Error::PriceFromFuture)));

    let mut prices = e.price_data(&tokens, Some(100000), None, None);
    prices.recency_duration_sec = 91;
    let res = e.borrow(&users.alice, &tokens.ndai, prices, d(1, 18));
    assert_eq!(res, Err(Failure::Ledger(Error::PriceRecencyTooLarge)));
}

#[test]
fn too_many_assets_are_refused() {
    let (mut e, tokens, users) = basic_setup();
    e.contract.config.max_num_assets = 2;
    e.supply_to_collateral(&users.alice, &tokens.wnear, d(100, 24)).unwrap();
    let prices = e.price_data(&tokens, Some(100000), None, None);
    // the loan adds a supplied and a borrowed position to the one that is there
    let res = e.borrow(&users.alice, &tokens.ndai, prices, d(1, 18));
    assert_eq!(res, Err(Failure::Ledger(Error::TooManyAssets)));
    let account = e.get_account(&users.alice);
    assert_eq!(account.borrowed.len(), 0);
}

/// Test Rewward farm with only 1 user Alice Deposit:
/// 1. Add farm for Deposit DAI token with config:
/// - 100 NEL/day
/// - Total reward 3000 NEL
/// 2. Deposit 100 DAI to Pool
/// 3. Check reward amount for 3 days, 5 days and 30 days
#[test]
fn test_farm_supplied() {
    let (mut e, tokens, users) = basic_setup();
    let booster = e.booster_token.clone();
    let nft_contract = e.nft_contract.clone();

    let reward_per_day = d(100, BOOSTER_TOKEN_DECIMALS);
    let total_reward = d(3000, BOOSTER_TOKEN_DECIMALS);

    let farm_id = FarmId::Supplied(tokens.ndai.clone());
    e.add_farm(
        farm_id.clone(),
        &booster,
        reward_per_day,
        d(100, BOOSTER_TOKEN_DECIMALS),
        total_reward,
    );

    let asset = e.get_asset(&tokens.ndai);
    assert_eq!(asset.farms.len(), 1);
    assert_eq!(asset.farms[0].farm_id, farm_id);
    let booster_reward = asset.farms[0]
        .rewards
        .get(&booster)
        .cloned()
        .unwrap();
    assert_eq!(booster_reward.remaining_rewards, total_reward);

    let amount = d(100, 18);

    e.contract_ft_transfer_call(&tokens.ndai, &users.alice, amount, vec![])
        .unwrap();

    let asset = e.get_asset(&booster);
    assert_eq!(asset.supplied.balance, 0);

    let asset = e.get_asset(&tokens.ndai);

    assert_eq!(asset.supplied.balance, amount);
    let booster_reward = asset.farms[0]
        .rewards
        .get(&booster)
        .cloned()
        .unwrap();
    assert_eq!(booster_reward.remaining_rewards, total_reward);

    let account = e.get_account(&users.alice);
    assert_balances(&account.supplied, &[av(&tokens.ndai, amount)]);
    let nel_token_before = e.nel_balance_of(&users.alice).0;

    assert_eq!(account.farms[0].farm_id, farm_id);
    assert_eq!(
        account.farms[0].rewards[0].reward_token_id,
        booster.clone()
    );
    assert_eq!(
        account.farms[0].rewards[0].boosted_shares,
        find_asset(&account.supplied, &tokens.ndai)
            .shares
            .0,
    );
    assert_eq!(account.farms[0].rewards[0].unclaimed_amount, 0);

    e.skip_time(ONE_DAY_SEC * 3);

    let farmed_amount = reward_per_day * 3;

    let asset = e.get_asset(&booster);
    assert_eq!(asset.supplied.balance, 0);

    let asset = e.get_asset(&tokens.ndai);
    assert_eq!(asset.supplied.balance, amount);
    let booster_reward = asset.farms[0]
        .rewards
        .get(&booster)
        .cloned()
        .unwrap();
    assert_eq!(
        booster_reward.remaining_rewards,
        total_reward - farmed_amount
    );

    let account = e.get_account(&users.alice);
    assert_balances(&account.supplied, &[av(&tokens.ndai, amount)]);

    assert_eq!(account.farms[0].farm_id, farm_id);
    assert_eq!(
        account.farms[0].rewards[0].boosted_shares,
        find_asset(&account.supplied, &tokens.ndai)
            .shares
            .0,
    );
    assert_eq!(account.farms[0].rewards[0].unclaimed_amount, farmed_amount);

    e.account_farm_claim_all(&users.alice).unwrap();
    let nel_token_after_skip_3_days = e.nel_balance_of(&users.alice).0;

    let asset = e.get_asset(&booster);
    assert_eq!(
        nel_token_after_skip_3_days - nel_token_before,
        farmed_amount
    );
    assert_eq!(asset.supplied.balance, 0);

    let asset = e.get_asset(&tokens.ndai);
    assert_eq!(asset.supplied.balance, amount);
    let booster_reward = asset.farms[0]
        .rewards
        .get(&booster)
        .cloned()
        .unwrap();
    assert_eq!(
        booster_reward.remaining_rewards,
        total_reward - farmed_amount
    );

    let account = e.get_account(&users.alice);

    assert_balances(
        &account.supplied,
        &[
            av(&tokens.ndai, amount),
        ],
    );

    assert_eq!(account.farms[0].farm_id, farm_id);
    assert_eq!(
        account.farms[0].rewards[0].boosted_shares,
        find_asset(&account.supplied, &tokens.ndai)
            .shares
            .0,
    );
    assert_eq!(account.farms[0].rewards[0].unclaimed_amount, 0);

    e.skip_time(ONE_DAY_SEC * 2);

    let asset = e.get_asset(&booster);
    assert_eq!(asset.supplied.balance, 0);

    let asset = e.get_asset(&tokens.ndai);
    assert_eq!(asset.supplied.balance, amount);
    let booster_reward = asset.farms[0]
        .rewards
        .get(&booster)
        .cloned()
        .unwrap();
    assert_eq!(
        booster_reward.remaining_rewards,
        total_reward - reward_per_day * 5
    );

    let account = e.get_account(&users.alice);
    assert_balances(&account.supplied, &[av(&tokens.ndai, amount)]);

    assert_eq!(account.farms[0].farm_id, farm_id);
    assert_eq!(
        account.farms[0].rewards[0].boosted_shares,
        find_asset(&account.supplied, &tokens.ndai)
            .shares
            .0,
    );
    assert_eq!(
        account.farms[0].rewards[0].unclaimed_amount,
        reward_per_day * 2
    );

    e.skip_time(ONE_DAY_SEC * 25);

    let asset = e.get_asset(&tokens.ndai);
    assert_eq!(asset.supplied.balance, amount);
    let booster_reward = asset.farms[0]
        .rewards
        .get(&booster)
        .cloned()
        .unwrap();
    assert_eq!(booster_reward.remaining_rewards, 0);

    let account = e.get_account(&users.alice);
    assert_balances(&account.supplied, &[av(&tokens.ndai, amount)]);

    assert_eq!(account.farms[0].farm_id, farm_id);
    assert_eq!(
        account.farms[0].rewards[0].boosted_shares,
        find_asset(&account.supplied, &tokens.ndai)
            .shares
            .0,
    );
    assert_eq!(
        account.farms[0].rewards[0].unclaimed_amount,
        total_reward - farmed_amount
    );

    e.account_farm_claim_all(&users.alice).unwrap();
    let nel_token_after_skip_30_days = e.nel_balance_of(&users.alice).0;

    let asset = e.get_asset(&booster);
    assert_eq!(
        nel_token_after_skip_30_days - nel_token_before,
        total_reward
    );
    assert_eq!(asset.supplied.balance, 0);

    let asset = e.get_asset(&tokens.ndai);
    assert_eq!(asset.supplied.balance, amount);
    assert!(asset.farms[0]
        .rewards
        .get(&booster)
        .is_none());

    let account = e.get_account(&users.alice);
    assert_balances(&account.supplied, &[av(&tokens.ndai, amount)]);

    assert_eq!(account.farms[0].farm_id, farm_id);
    assert!(account.farms[0].rewards.is_empty());

    e.skip_time(ONE_DAY_SEC * 3);

    e.account_farm_claim_all(&users.alice).unwrap();
    let nel_token_after_skip_3_days = e.nel_balance_of(&users.alice).0;
    assert_eq!(
        nel_token_after_skip_30_days - nel_token_after_skip_3_days,
        0
    );
}

///  Test Rewward farm with only 2 users Alice & Bob Deposit:
///  1. Add farm for Deposit DAI token with config:
///  - 100 NEL/day
///  - Total reward 3000 NEL
///  2. Alice Deposit 100 DAI to Pool, Bob deposit 300 DAI to Pool
///  3. Check reward amount for 3 days, 5 days and 30 days
#[test]
fn test_farm_supplied_2() {
    let (mut e, tokens, users) = basic_setup();
    let booster = e.booster_token.clone();
    let nft_contract = e.nft_contract.clone();

    let reward_per_day = d(100, BOOSTER_TOKEN_DECIMALS);
    let total_reward = d(3000, BOOSTER_TOKEN_DECIMALS);

    let farm_id = FarmId::Supplied(tokens.ndai.clone());
    e.add_farm(
        farm_id.clone(),
        &booster,
        reward_per_day,
        d(100, BOOSTER_TOKEN_DECIMALS),
        total_reward,
    );

    let asset = e.get_asset(&tokens.ndai);
    assert_eq!(asset.farms.len(), 1);
    assert_eq!(asset.farms[0].farm_id, farm_id);
    let booster_reward = asset.farms[0]
        .rewards
        .get(&booster)
        .cloned()
        .unwrap();
    assert_eq!(booster_reward.remaining_rewards, total_reward);

    let alice_amount = d(100, 18);
    let bob_amount = d(300, 18);

    let total_amount_deposit = alice_amount + bob_amount;
    let alice_ratio_reward = (alice_amount * 10_000 / total_amount_deposit) as u32;
    let bob_ratio_reward = (bob_amount * 10_000 / total_amount_deposit) as u32;

    e.contract_ft_transfer_call(&tokens.ndai, &users.alice, alice_amount, vec![])
        .unwrap();

    e.contract_ft_transfer_call(&tokens.ndai, &users.bob, bob_amount, vec![])
        .unwrap();

    let asset = e.get_asset(&booster);
    assert_eq!(asset.supplied.balance, 0);

    let asset = e.get_asset(&tokens.ndai);

    assert_eq!(asset.supplied.balance, total_amount_deposit);
    let booster_reward = asset.farms[0]
        .rewards
        .get(&booster)
        .cloned()
        .unwrap();
    assert_eq!(booster_reward.remaining_rewards, total_reward);

    let alice_account = e.get_account(&users.alice);
    let bob_account = e.get_account(&users.bob);
    assert_balances(
        &alice_account.supplied,
        &[av(&tokens.ndai, alice_amount)],
    );
    assert_balances(
        &bob_account.supplied,
        &[av(&tokens.ndai, bob_amount)],
    );

    let alice_nel_token_before = e.nel_balance_of(&users.alice).0;
    let bob_nel_token_before = e.nel_balance_of(&users.alice).0;

    assert_eq!(alice_account.farms[0].farm_id, farm_id);
    assert_eq!(
        alice_account.farms[0].rewards[0].reward_token_id,
        booster.clone()
    );
    assert_eq!(
        alice_account.farms[0].rewards[0].boosted_shares,
        find_asset(&alice_account.supplied, &tokens.ndai)
            .shares
            .0,
    );
    assert_eq!(alice_account.farms[0].rewards[0].unclaimed_amount, 0);

    e.skip_time(ONE_DAY_SEC * 3);

    let farmed_amount = reward_per_day * 3;

    let asset = e.get_asset(&booster);
    assert_eq!(asset.supplied.balance, 0);

    let asset = e.get_asset(&tokens.ndai);
    assert_eq!(asset.supplied.balance, total_amount_deposit);
    let booster_reward = asset.farms[0]
        .rewards
        .get(&booster)
        .cloned()
        .unwrap();
    assert_eq!(
        booster_reward.remaining_rewards,
        total_reward - farmed_amount
    );

    let alice_account = e.get_account(&users.alice);
    let bob_account = e.get_account(&users.bob);
    assert_balances(
        &alice_account.supplied,
        &[av(&tokens.ndai, alice_amount)],
    );

    assert_eq!(alice_account.farms[0].farm_id, farm_id);
    assert_eq!(
        alice_account.farms[0].rewards[0].boosted_shares,
        find_asset(&alice_account.supplied, &tokens.ndai)
            .shares
            .0,
    );
    assert_eq!(
        alice_account.farms[0].rewards[0].unclaimed_amount,
        ratio_part(farmed_amount, alice_ratio_reward)
    );

    assert_eq!(
        bob_account.farms[0].rewards[0].unclaimed_amount,
        ratio_part(farmed_amount, bob_ratio_reward)
    );

    e.account_farm_claim_all(&users.alice).unwrap();
    e.account_farm_claim_all(&users.bob).unwrap();
    let alice_nel_token_after_skip_3_days = e.nel_balance_of(&users.alice).0;
    let bob_nel_token_after_skip_3_days = e.nel_balance_of(&users.bob).0;

    let asset = e.get_asset(&booster);
    assert_eq!(
        alice_nel_token_after_skip_3_days - alice_nel_token_before,
        ratio_part(farmed_amount, alice_ratio_reward)
    );
    assert_eq!(
        bob_nel_token_after_skip_3_days - bob_nel_token_before,
        ratio_part(farmed_amount, bob_ratio_reward)
    );
    assert_eq!(asset.supplied.balance, 0);

    let alice_account = e.get_account(&users.alice);
    let bob_account = e.get_account(&users.bob);

    let asset = e.get_asset(&tokens.ndai);
    assert_eq!(asset.supplied.balance, total_amount_deposit);
    let booster_reward = asset.farms[0]
        .rewards
        .get(&booster)
        .cloned()
        .unwrap();
    assert_eq!(
        booster_reward.remaining_rewards,
        total_reward - farmed_amount
    );

    assert_balances(
        &alice_account.supplied,
        &[av(&tokens.ndai, alice_amount)],
    );

    assert_eq!(alice_account.farms[0].farm_id, farm_id);
    assert_eq!(
        alice_account.farms[0].rewards[0].boosted_shares,
        find_asset(&alice_account.supplied, &tokens.ndai)
            .shares
            .0,
    );
    assert_eq!(alice_account.farms[0].rewards[0].unclaimed_amount, 0);
    assert_eq!(bob_account.farms[0].rewards[0].unclaimed_amount, 0);

    e.skip_time(ONE_DAY_SEC * 2);

    let asset = e.get_asset(&booster);
    assert_eq!(asset.supplied.balance, 0);

    let asset = e.get_asset(&tokens.ndai);
    assert_eq!(asset.supplied.balance, total_amount_deposit);
    let booster_reward = asset.farms[0]
        .rewards
        .get(&booster)
        .cloned()
        .unwrap();
    assert_eq!(
        booster_reward.remaining_rewards,
        total_reward - reward_per_day * 5
    );

    let alice_account = e.get_account(&users.alice);
    let bob_account = e.get_account(&users.bob);

    assert_eq!(alice_account.farms[0].farm_id, farm_id);
    assert_eq!(
        alice_account.farms[0].rewards[0].boosted_shares,
        find_asset(&alice_account.supplied, &tokens.ndai)
            .shares
            .0,
    );
    assert_eq!(
        bob_account.farms[0].rewards[0].boosted_shares,
        find_asset(&bob_account.supplied, &tokens.ndai)
            .shares
            .0,
    );

    assert_eq!(
        alice_account.farms[0].rewards[0].unclaimed_amount,
        ratio_part(reward_per_day * 2, alice_ratio_reward)
    );
    assert_eq!(
        bob_account.farms[0].rewards[0].unclaimed_amount,
        ratio_part(reward_per_day * 2, bob_ratio_reward)
    );

    e.skip_time(ONE_DAY_SEC * 25);

    let asset = e.get_asset(&tokens.ndai);
    assert_eq!(asset.supplied.balance, total_amount_deposit);
    let booster_reward = asset.farms[0]
        .rewards
        .get(&booster)
        .cloned()
        .unwrap();
    assert_eq!(booster_reward.remaining_rewards, 0);

    let alice_account = e.get_account(&users.alice);
    let bob_account = e.get_account(&users.bob);

    assert_eq!(
        alice_account.farms[0].rewards[0].unclaimed_amount,
        ratio_part(total_reward - farmed_amount, alice_ratio_reward)
    );
    assert_eq!(
        bob_account.farms[0].rewards[0].unclaimed_amount,
        ratio_part(total_reward - farmed_amount, bob_ratio_reward)
    );

    e.account_farm_claim_all(&users.alice).unwrap();
    e.account_farm_claim_all(&users.bob).unwrap();
    let alice_nel_token_after_skip_30_days = e.nel_balance_of(&users.alice).0;
    let bob_nel_token_after_skip_30_days = e.nel_balance_of(&users.bob).0;

    let asset = e.get_asset(&booster);
    assert_eq!(
        alice_nel_token_after_skip_30_days - alice_nel_token_before,
        ratio_part(total_reward, alice_ratio_reward)
    );
    assert_eq!(
        bob_nel_token_after_skip_30_days - bob_nel_token_before,
        ratio_part(total_reward, bob_ratio_reward)
    );
    assert_eq!(asset.supplied.balance, 0);

    let asset = e.get_asset(&tokens.ndai);
    assert_eq!(asset.supplied.balance, total_amount_deposit);
    assert!(asset.farms[0]
        .rewards
        .get(&booster)
        .is_none());

    let alice_account = e.get_account(&users.alice);
    let bob_account = e.get_account(&users.bob);

    assert_eq!(alice_account.farms[0].farm_id, farm_id);
    assert!(alice_account.farms[0].rewards.is_empty());
    assert_eq!(bob_account.farms[0].farm_id, farm_id);
    assert!(bob_account.farms[0].rewards.is_empty());

    e.skip_time(ONE_DAY_SEC * 3);

    e.account_farm_claim_all(&users.alice).unwrap();
    e.account_farm_claim_all(&users.bob).unwrap();
    let alice_nel_token_after_skip_3_days = e.nel_balance_of(&users.alice).0;
    let bob_nel_token_after_skip_3_days = e.nel_balance_of(&users.bob).0;
    assert_eq!(
        alice_nel_token_after_skip_30_days - alice_nel_token_after_skip_3_days,
        0
    );
    assert_eq!(
        bob_nel_token_after_skip_30_days - bob_nel_token_after_skip_3_days,
        0
    );
}

///  Test Reward farm Borrow with only 1 user Alice Deposit:
///  1. Add farm for Deposit DAI token with config:
///  - 100 NEL/day
///  - Total reward 3000 NEL
///  2. Deposit 1000 USDT to Pool
///  3. Borrow 100 DAI
///  4. Check reward amount for 3 days, 5 days and 30 days
#[test]
fn test_farm_borrowed() {
    let (mut e, tokens, users) = basic_setup();
    let booster = e.booster_token.clone();
    let nft_contract = e.nft_contract.clone();

    let reward_per_day = d(100, BOOSTER_TOKEN_DECIMALS);
    let total_reward = d(3000, BOOSTER_TOKEN_DECIMALS);

    let farm_id = FarmId::Supplied(tokens.ndai.clone());
    e.add_farm(
        farm_id.clone(),
        &booster,
        reward_per_day,
        d(100, BOOSTER_TOKEN_DECIMALS),
        total_reward,
    );

    let asset = e.get_asset(&tokens.ndai);
    assert_eq!(asset.farms.len(), 1);
    assert_eq!(asset.farms[0].farm_id, farm_id);
    let booster_reward = asset.farms[0]
        .rewards
        .get(&booster)
        .cloned()
        .unwrap();
    assert_eq!(booster_reward.remaining_rewards, total_reward);

    let dai_amount = d(100, 18);
    let usdt_amount = d(1000, 6);
    let amount = d(100, 18);

    let ratio_reward_borrow = (amount * 10_000 / (dai_amount + amount)) as u32;

    e.contract_ft_transfer_call(&tokens.nusdt, &users.alice, usdt_amount, vec![])
        .unwrap();

    e.contract_ft_transfer_call(&tokens.ndai, &users.bob, dai_amount, vec![])
        .unwrap();

    let asset = e.get_asset(&booster);
    assert_eq!(asset.borrowed.balance, 0);

    let _ = e.borrow(
        &users.alice,
        &tokens.ndai,
        e.price_data(&tokens, None, None, None),
        amount,
    );

    let asset = e.get_asset(&tokens.ndai);

    assert_eq!(asset.borrowed.balance, amount);
    let booster_reward = asset.farms[0]
        .rewards
        .get(&booster)
        .cloned()
        .unwrap();
    assert_eq!(booster_reward.remaining_rewards, total_reward);

    let account = e.get_account(&users.alice);
    assert_balances(&account.borrowed, &[av(&tokens.ndai, amount)]);
    let nel_token_before = e.nel_balance_of(&users.alice).0;

    assert_eq!(account.farms[0].farm_id, farm_id);
    assert_eq!(
        account.farms[0].rewards[0].reward_token_id,
        booster.clone()
    );
    assert_eq!(
        account.farms[0].rewards[0].boosted_shares,
        find_asset(&account.borrowed, &tokens.ndai)
            .shares
            .0,
    );
    assert_eq!(account.farms[0].rewards[0].unclaimed_amount, 0);

    e.skip_time(ONE_DAY_SEC * 3);

    let farmed_amount = reward_per_day * 3;

    let asset = e.get_asset(&booster);
    assert_eq!(asset.borrowed.balance, 0);

    let asset = e.get_asset(&tokens.ndai);
    let booster_reward = asset.farms[0]
        .rewards
        .get(&booster)
        .cloned()
        .unwrap();
    assert_eq!(
        booster_reward.remaining_rewards,
        total_reward - farmed_amount
    );

    let account = e.get_account(&users.alice);
    assert_eq!(
        account.farms[0].rewards[0].boosted_shares,
        find_asset(&account.borrowed, &tokens.ndai)
            .shares
            .0,
    );
    assert_eq!(
        account.farms[0].rewards[0].unclaimed_amount,
        ratio_part(farmed_amount, ratio_reward_borrow)
    );

    e.account_farm_claim_all(&users.alice).unwrap();
    let nel_token_after_skip_3_days = e.nel_balance_of(&users.alice).0;

    let asset = e.get_asset(&booster);
    assert_eq!(
        nel_token_after_skip_3_days - nel_token_before,
        ratio_part(farmed_amount, ratio_reward_borrow)
    );
    assert_eq!(asset.borrowed.balance, 0);

    let asset = e.get_asset(&tokens.ndai);
    let booster_reward = asset.farms[0]
        .rewards
        .get(&booster)
        .cloned()
        .unwrap();
    assert_eq!(
        booster_reward.remaining_rewards,
        total_reward - farmed_amount
    );

    let account = e.get_account(&users.alice);

    assert_eq!(account.farms[0].farm_id, farm_id);
    assert_eq!(
        account.farms[0].rewards[0].boosted_shares,
        find_asset(&account.borrowed, &tokens.ndai)
            .shares
            .0,
    );
    assert_eq!(account.farms[0].rewards[0].unclaimed_amount, 0);

    e.skip_time(ONE_DAY_SEC * 2);

    let asset = e.get_asset(&booster);
    assert_eq!(asset.borrowed.balance, 0);

    let asset = e.get_asset(&tokens.ndai);
    let booster_reward = asset.farms[0]
        .rewards
        .get(&booster)
        .cloned()
        .unwrap();
    assert_eq!(
        booster_reward.remaining_rewards,
        total_reward - reward_per_day * 5
    );

    let account = e.get_account(&users.alice);

    assert_eq!(account.farms[0].farm_id, farm_id);
    assert_eq!(
        account.farms[0].rewards[0].boosted_shares,
        find_asset(&account.borrowed, &tokens.ndai)
            .shares
            .0,
    );
    assert_eq!(
        account.farms[0].rewards[0].unclaimed_amount,
        ratio_part(reward_per_day * 2, ratio_reward_borrow)
    );

    e.skip_time(ONE_DAY_SEC * 25);

    let asset = e.get_asset(&tokens.ndai);
    let booster_reward = asset.farms[0]
        .rewards
        .get(&booster)
        .cloned()
        .unwrap();
    assert_eq!(booster_reward.remaining_rewards, 0);

    let account = e.get_account(&users.alice);

    assert_eq!(account.farms[0].farm_id, farm_id);
    assert_eq!(
        account.farms[0].rewards[0].boosted_shares,
        find_asset(&account.borrowed, &tokens.ndai)
            .shares
            .0,
    );
    assert_eq!(
        account.farms[0].rewards[0].unclaimed_amount,
        ratio_part(total_reward - farmed_amount, ratio_reward_borrow)
    );

    e.account_farm_claim_all(&users.alice).unwrap();
    let nel_token_after_skip_30_days = e.nel_balance_of(&users.alice).0;

    let asset = e.get_asset(&booster);
    assert_eq!(
        nel_token_after_skip_30_days - nel_token_before,
        ratio_part(total_reward, ratio_reward_borrow)
    );
    assert_eq!(asset.borrowed.balance, 0);

    let asset = e.get_asset(&tokens.ndai);
    assert!(asset.farms[0]
        .rewards
        .get(&booster)
        .is_none());

    let account = e.get_account(&users.alice);

    assert_eq!(account.farms[0].farm_id, farm_id);
    assert!(account.farms[0].rewards.is_empty());

    e.skip_time(ONE_DAY_SEC * 3);

    e.account_farm_claim_all(&users.alice).unwrap();
    let nel_token_after_skip_3_days = e.nel_balance_of(&users.alice).0;
    assert_eq!(
        nel_token_after_skip_30_days - nel_token_after_skip_3_days,
        0
    );
}

#[test]
fn test_has_potential_farms() {
    let (mut e, tokens, users) = basic_setup();
    let booster = e.booster_token.clone();
    let nft_contract = e.nft_contract.clone();

    let amount = d(100, 18);
    e.contract_ft_transfer_call(&tokens.ndai, &users.alice, amount, vec![])
        .unwrap();

    let account = e.get_account(&users.alice);
    assert!(!account.has_non_farmed_assets);

    let reward_per_day = d(100, 18);
    let total_reward = d(3000, 18);

    let farm_id = FarmId::Supplied(tokens.ndai.clone());
    e.add_farm(
        farm_id,
        &booster,
        reward_per_day,
        d(100, 18),
        total_reward,
    );

    let account = e.get_account(&users.alice);
    assert_eq!(account.farms.len(), 0);
    assert!(account.has_non_farmed_assets);

    e.account_farm_claim_all(&users.alice).unwrap();

    let account = e.get_account(&users.alice);
    assert_eq!(account.farms.len(), 1);
    assert!(!account.has_non_farmed_assets);
}

#[test]
fn test_nft_farm_supplied() {
    let (mut e, _tokens, users) = basic_setup();
    let booster = e.booster_token.clone();
    let nft_contract = e.nft_contract.clone();

    let reward_per_day = d(100, 18);
    let total_reward = d(3000, 18);

    let farm_id = FarmId::SuppliedNFT(nft_contract.clone());
    e.add_farm(
        farm_id.clone(),
        &booster,
        reward_per_day,
        d(100, 18),
        total_reward,
    );

    let asset = e.get_asset(&nft_contract);
    assert_eq!(asset.farms.len(), 1);
    assert_eq!(asset.farms[0].farm_id, farm_id);
    let booster_reward = asset.farms[0]
        .rewards
        .get(&booster)
        .cloned()
        .unwrap();
    assert_eq!(booster_reward.remaining_rewards, total_reward);

    e.mint_nft(&users.alice, "1".to_string());
    e.mint_nft(&users.alice, "2".to_string());

    e.supply_nft_to_collateral(&users.alice, nft_contract.clone(), "2".to_string())
        .unwrap();

    let asset = e.get_asset(&booster);
    assert_eq!(asset.supplied.balance, 0);

    let asset = e.get_asset(&nft_contract);
    assert_eq!(asset.nft_supplied[0].owner_id, users.alice.clone());
    assert_eq!(asset.nft_supplied[0].token_id, "2".to_string());

    let booster_reward = asset.farms[0]
        .rewards
        .get(&booster)
        .cloned()
        .unwrap();
    assert_eq!(booster_reward.remaining_rewards, total_reward);

    let account = e.get_account(&users.alice);
    assert_eq!(
        account.nft_supplied[0].nft_contract_id,
        nft_contract.clone()
    );
    assert_eq!(account.nft_supplied[0].nft_token_id, "2".to_string());

    assert_eq!(account.farms[0].farm_id, farm_id);
    assert_eq!(
        account.farms[0].rewards[0].reward_token_id,
        booster.clone()
    );
    let nft_supplied_count = 1;
    assert_eq!(
        account.farms[0].rewards[0].boosted_shares,
        nft_supplied_count * 10u128.pow(24)
    );
    assert_eq!(account.farms[0].rewards[0].unclaimed_amount, 0);

    e.skip_time(ONE_DAY_SEC * 3);

    let farmed_amount = reward_per_day * 3;

    let asset = e.get_asset(&booster);
    assert_eq!(asset.supplied.balance, 0);

    let asset = e.get_asset(&nft_contract);

    let booster_reward = asset.farms[0]
        .rewards
        .get(&booster)
        .cloned()
        .unwrap();
    assert_eq!(
        booster_reward.remaining_rewards,
        total_reward - farmed_amount
    );

    let account = e.get_account(&users.alice);

    assert_eq!(account.farms[0].farm_id, farm_id);
    assert_eq!(
        account.farms[0].rewards[0].boosted_shares,
        nft_supplied_count * 10u128.pow(24),
    );
    assert_eq!(account.farms[0].rewards[0].unclaimed_amount, farmed_amount);

    e.account_farm_claim_all(&users.alice).unwrap();

    let asset = e.get_asset(&booster);
    assert_eq!(asset.supplied.balance, 0);

    let asset = e.get_asset(&nft_contract);
    let booster_reward = asset.farms[0]
        .rewards
        .get(&booster)
        .cloned()
        .unwrap();
    assert_eq!(
        booster_reward.remaining_rewards,
        total_reward - farmed_amount
    );

    let account = e.get_account(&users.alice);
    assert_eq!(account.farms[0].farm_id, farm_id);
    assert_eq!(
        account.farms[0].rewards[0].boosted_shares,
        nft_supplied_count * 10u128.pow(24),
    );
    assert_eq!(account.farms[0].rewards[0].unclaimed_amount, 0);

    e.skip_time(ONE_DAY_SEC * 2);

    let asset = e.get_asset(&booster);
    assert_eq!(asset.supplied.balance, 0);

    let asset = e.get_asset(&nft_contract);
    let booster_reward = asset.farms[0]
        .rewards
        .get(&booster)
        .cloned()
        .unwrap();
    assert_eq!(
        booster_reward.remaining_rewards,
        total_reward - reward_per_day * 5
    );

    let account = e.get_account(&users.alice);
    assert_eq!(account.farms[0].farm_id, farm_id);
    assert_eq!(
        account.farms[0].rewards[0].boosted_shares,
        nft_supplied_count * 10u128.pow(24),
    );
    assert_eq!(
        account.farms[0].rewards[0].unclaimed_amount,
        reward_per_day * 2
    );

    e.skip_time(ONE_DAY_SEC * 30);

    let asset = e.get_asset(&nft_contract);
    let booster_reward = asset.farms[0]
        .rewards
        .get(&booster)
        .cloned()
        .unwrap();
    assert_eq!(booster_reward.remaining_rewards, 0);

    let account = e.get_account(&users.alice);
    assert_eq!(account.farms[0].farm_id, farm_id);
    assert_eq!(
        account.farms[0].rewards[0].boosted_shares,
        nft_supplied_count * 10u128.pow(24),
    );
    assert_eq!(
        account.farms[0].rewards[0].unclaimed_amount,
        total_reward - farmed_amount
    );

    e.account_farm_claim_all(&users.alice).unwrap();

    let asset = e.get_asset(&booster);
    assert_eq!(asset.supplied.balance, 0);

    let asset = e.get_asset(&nft_contract);
    assert!(asset.farms[0]
        .rewards
        .get(&booster)
        .is_none());

    let account = e.get_account(&users.alice);
    assert_eq!(account.farms[0].farm_id, farm_id);
    assert!(account.farms[0].rewards.is_empty());
}

#[test]
fn test_farm_supplied_xbooster() {
    let (mut e, tokens, users) = basic_setup();
    let booster = e.booster_token.clone();

    let reward_per_day = d(100, 18);
    let total_reward = d(3000, 18);
    let booster_base = d(20, 18);

    let farm_id = FarmId::Supplied(tokens.ndai.clone());
    e.add_farm(
        farm_id,
        &tokens.nusdc,
        reward_per_day,
        booster_base,
        total_reward,
    );

    let booster_amount = d(5, 18);
    e.contract_ft_transfer_call(
        &booster,
        &users.alice,
        booster_amount, vec![])
    .unwrap();

    e.account_stake_booster(&users.alice, booster_amount, MAX_DURATION_SEC)
        .unwrap();

    let amount = d(100, 18);
    e.contract_ft_transfer_call(&tokens.ndai, &users.alice, amount, vec![])
        .unwrap();

    let asset = e.get_asset(&tokens.nusdc);
    assert_eq!(asset.supplied.balance, 0);

    let asset = e.get_asset(&tokens.ndai);
    assert_eq!(asset.supplied.balance, amount);
    let booster_reward = asset.farms[0]
        .rewards
        .get(&tokens.nusdc)
        .cloned()
        .unwrap();
    assert_eq!(booster_reward.remaining_rewards, total_reward);
    assert_eq!(booster_reward.boosted_shares, asset.supplied.shares.0 * 2);

    let account = e.get_account(&users.alice);
    assert_balances(&account.supplied, &[av(&tokens.ndai, amount)]);

    let booster_staking = account.booster_staking.unwrap();
    assert_eq!(booster_staking.staked_booster_amount, booster_amount);
    assert_eq!(booster_staking.x_booster_amount, booster_amount * 4);

    assert_eq!(
        account.farms[0].rewards[0].boosted_shares,
        find_asset(&account.supplied, &tokens.ndai)
            .shares
            .0
            * 2,
    );
    assert_eq!(account.farms[0].rewards[0].unclaimed_amount, 0);

    e.skip_time(ONE_DAY_SEC * 3);

    let farmed_amount = reward_per_day * 3;
    let asset = e.get_asset(&tokens.ndai);
    let booster_reward = asset.farms[0]
        .rewards
        .get(&tokens.nusdc)
        .cloned()
        .unwrap();
    assert_eq!(
        booster_reward.remaining_rewards,
        total_reward - farmed_amount
    );

    let account = e.get_account(&users.alice);
    assert_eq!(account.farms[0].rewards[0].unclaimed_amount, farmed_amount);

    let booster_amount = d(95, 18);
    e.contract_ft_transfer_call(
        &booster,
        &users.alice,
        booster_amount, vec![])
    .unwrap();

    e.account_stake_booster(&users.alice, booster_amount, MAX_DURATION_SEC)
        .unwrap();

    let asset = e.get_asset(&tokens.nusdc);
    assert_eq!(asset.supplied.balance, 0);

    let asset = e.get_asset(&tokens.ndai);
    let booster_reward = asset.farms[0]
        .rewards
        .get(&tokens.nusdc)
        .cloned()
        .unwrap();
    assert_eq!(
        booster_reward.remaining_rewards,
        total_reward - farmed_amount
    );
    assert_eq!(booster_reward.boosted_shares, asset.supplied.shares.0 * 3);

    let account = e.get_account(&users.alice);
    assert_balances(
        &account.supplied,
        &[
            av(&tokens.ndai, amount),
        ],
    );

    assert_eq!(
        account.farms[0].rewards[0].boosted_shares,
        find_asset(&account.supplied, &tokens.ndai)
            .shares
            .0
            * 3,
    );
    assert_eq!(account.farms[0].rewards[0].unclaimed_amount, 0);
    let booster_staking = account.booster_staking.unwrap();
    assert_eq!(booster_staking.staked_booster_amount, d(100, 18));
    assert_eq!(booster_staking.x_booster_amount, d(400, 18));
}

#[test]
fn test_farm_supplied_xbooster_unstake() {
    let (mut e, tokens, users) = basic_setup();
    let booster = e.booster_token.clone();

    let booster_amount = d(5, 18);
    e.contract_ft_transfer_call(
        &booster,
        &users.alice,
        booster_amount, vec![])
    .unwrap();

    e.account_stake_booster(&users.alice, booster_amount, MAX_DURATION_SEC)
        .unwrap();

    e.skip_time(MAX_DURATION_SEC);

    let reward_per_day = d(100, 18);
    let total_reward = d(3000, 18);
    let booster_base = d(20, 18);

    let farm_id = FarmId::Supplied(tokens.ndai.clone());
    e.add_farm(
        farm_id,
        &tokens.nusdc,
        reward_per_day,
        booster_base,
        total_reward,
    );

    let amount = d(100, 18);
    e.contract_ft_transfer_call(&tokens.ndai, &users.alice, amount, vec![])
        .unwrap();

    let asset = e.get_asset(&tokens.nusdc);
    assert_eq!(asset.supplied.balance, 0);

    let asset = e.get_asset(&tokens.ndai);
    assert_eq!(asset.supplied.balance, amount);
    let booster_reward = asset.farms[0]
        .rewards
        .get(&tokens.nusdc)
        .cloned()
        .unwrap();
    assert_eq!(booster_reward.remaining_rewards, total_reward);
    assert_eq!(booster_reward.boosted_shares, asset.supplied.shares.0 * 2);

    let account = e.get_account(&users.alice);

    assert_eq!(
        account.farms[0].rewards[0].boosted_shares,
        find_asset(&account.supplied, &tokens.ndai)
            .shares
            .0
            * 2,
    );
    assert_eq!(account.farms[0].rewards[0].unclaimed_amount, 0);

    e.skip_time(ONE_DAY_SEC * 3);

    let farmed_amount = reward_per_day * 3;
    let asset = e.get_asset(&tokens.ndai);
    let booster_reward = asset.farms[0]
        .rewards
        .get(&tokens.nusdc)
        .cloned()
        .unwrap();
    assert_eq!(
        booster_reward.remaining_rewards,
        total_reward - farmed_amount
    );

    let account = e.get_account(&users.alice);
    assert_eq!(account.farms[0].rewards[0].unclaimed_amount, farmed_amount);

    e.account_unstake_booster(&users.alice).unwrap();

    let asset = e.get_asset(&tokens.nusdc);
    assert_eq!(asset.supplied.balance, 0);

    let asset = e.get_asset(&tokens.ndai);
    let booster_reward = asset.farms[0]
        .rewards
        .get(&tokens.nusdc)
        .cloned()
        .unwrap();
    assert_eq!(
        booster_reward.remaining_rewards,
        total_reward - farmed_amount
    );
    assert_eq!(booster_reward.boosted_shares, asset.supplied.shares.0);

    let account = e.get_account(&users.alice);
    assert_balances(
        &account.supplied,
        &[
            av(&tokens.ndai, amount),
            av(&booster, booster_amount),
        ],
    );

    assert_eq!(
        account.farms[0].rewards[0].boosted_shares,
        find_asset(&account.supplied, &tokens.ndai)
            .shares
            .0,
    );
    assert_eq!(account.farms[0].rewards[0].unclaimed_amount, 0);
    assert!(account.booster_staking.is_none());
}

#[test]
fn test_farm_supplied_two_users() {
    let (mut e, tokens, users) = basic_setup();
    let booster = e.booster_token.clone();

    let booster_amount_alice = d(5, 18);
    e.contract_ft_transfer_call(
        &booster,
        &users.alice,
        booster_amount_alice, vec![])
    .unwrap();

    e.account_stake_booster(&users.alice, booster_amount_alice, MAX_DURATION_SEC)
        .unwrap();

    let booster_amount_bob = d(100, 18);
    e.contract_ft_transfer_call(
        &booster,
        &users.bob,
        booster_amount_bob, vec![])
    .unwrap();

    e.account_stake_booster(&users.bob, booster_amount_bob, MAX_DURATION_SEC)
        .unwrap();

    let reward_per_day = d(100, 18);
    let total_reward = d(3000, 18);
    let booster_base = d(20, 18);

    let farm_id = FarmId::Supplied(tokens.ndai.clone());
    e.add_farm(
        farm_id,
        &tokens.nusdc,
        reward_per_day,
        booster_base,
        total_reward,
    );

    let amount = d(100, 18);
    e.contract_ft_transfer_call(&tokens.ndai, &users.alice, amount, vec![])
        .unwrap();

    e.contract_ft_transfer_call(&tokens.ndai, &users.bob, amount, vec![])
        .unwrap();

    let asset = e.get_asset(&tokens.nusdc);
    assert_eq!(asset.supplied.balance, 0);

    let asset = e.get_asset(&tokens.ndai);
    assert_eq!(asset.supplied.balance, amount * 2);
    let booster_reward = asset.farms[0]
        .rewards
        .get(&tokens.nusdc)
        .cloned()
        .unwrap();
    assert_eq!(booster_reward.remaining_rewards, total_reward);
    assert_eq!(
        booster_reward.boosted_shares,
        asset.supplied.shares.0 * 5 / 2
    );

    let account = e.get_account(&users.alice);

    assert_eq!(
        account.farms[0].rewards[0].boosted_shares,
        find_asset(&account.supplied, &tokens.ndai)
            .shares
            .0
            * 2,
    );
    assert_eq!(account.farms[0].rewards[0].unclaimed_amount, 0);

    let account = e.get_account(&users.bob);

    assert_eq!(
        account.farms[0].rewards[0].boosted_shares,
        find_asset(&account.supplied, &tokens.ndai)
            .shares
            .0
            * 3,
    );
    assert_eq!(account.farms[0].rewards[0].unclaimed_amount, 0);

    e.skip_time(ONE_DAY_SEC * 3);

    let farmed_amount = reward_per_day * 3;
    let asset = e.get_asset(&tokens.ndai);
    let booster_reward = asset.farms[0]
        .rewards
        .get(&tokens.nusdc)
        .cloned()
        .unwrap();
    assert_eq!(
        booster_reward.remaining_rewards,
        total_reward - farmed_amount
    );

    let account = e.get_account(&users.alice);
    assert_eq!(
        account.farms[0].rewards[0].unclaimed_amount,
        farmed_amount * 2 / 5
    );

    let account = e.get_account(&users.bob);
    assert_eq!(
        account.farms[0].rewards[0].unclaimed_amount,
        farmed_amount * 3 / 5
    );

    let extra_booster_amount = d(95, 18);
    e.contract_ft_transfer_call(
        &booster,
        &users.alice,
        extra_booster_amount, vec![])
    .unwrap();

    e.account_stake_booster(&users.alice, extra_booster_amount, MAX_DURATION_SEC)
        .unwrap();

    let asset = e.get_asset(&tokens.nusdc);
    assert_eq!(asset.supplied.balance, 0);

    let asset = e.get_asset(&tokens.ndai);
    let booster_reward = asset.farms[0]
        .rewards
        .get(&tokens.nusdc)
        .cloned()
        .unwrap();
    assert_eq!(
        booster_reward.remaining_rewards,
        total_reward - farmed_amount
    );

    assert_eq!(booster_reward.boosted_shares, asset.supplied.shares.0 * 3);

    let account = e.get_account(&users.alice);
    assert_balances(&account.supplied, &[av(&tokens.ndai, amount)]);

    assert_eq!(
        account.farms[0].rewards[0].boosted_shares,
        find_asset(&account.supplied, &tokens.ndai)
            .shares
            .0
            * 3,
    );
    assert_eq!(account.farms[0].rewards[0].unclaimed_amount, 0);

    let account = e.get_account(&users.bob);
    assert_eq!(
        account.farms[0].rewards[0].unclaimed_amount,
        farmed_amount * 3 / 5
    );

    e.skip_time(ONE_DAY_SEC * 2);

    let asset = e.get_asset(&tokens.nusdc);
    assert_eq!(asset.supplied.balance, 0);

    let asset = e.get_asset(&tokens.ndai);
    let booster_reward = asset.farms[0]
        .rewards
        .get(&tokens.nusdc)
        .cloned()
        .unwrap();
    assert_eq!(
        booster_reward.remaining_rewards,
        total_reward - reward_per_day * 5
    );

    let account = e.get_account(&users.alice);
    assert_eq!(
        account.farms[0].rewards[0].unclaimed_amount,
        reward_per_day * 2 / 2
    );

    let account = e.get_account(&users.bob);
    assert_eq!(
        account.farms[0].rewards[0].unclaimed_amount,
        farmed_amount * 3 / 5 + reward_per_day * 2 / 2
    );
}
