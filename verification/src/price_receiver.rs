//! What the oracle hands to the ledger: prices, and the batch to execute at
//! those prices.

use crate::actions::Action;
use crate::config::Config;
use crate::contract::Contract;
use crate::error::Error;
use crate::prices::{Price, Prices};
use crate::str_map::{upsert, Entries, StrMap};
use crate::utils::{to_nano, DurationSec, Timestamp, TokenId, NANOS_PER_SEC};
use vstd::prelude::*;

verus! {

/// The message that comes with the prices.
#[derive(Debug)]
pub enum PriceReceiverMsg {
    /// Execute the actions on behalf of the sender.
    Execute { actions: Vec<Action> },
}

/// The price of one asset, if the oracle has one.
#[derive(Debug)]
pub struct AssetOptionalPrice {
    pub asset_id: TokenId,
    pub price: Option<Price>,
}

/// The prices as the oracle sends them.
#[derive(Debug)]
pub struct PriceData {
    /// When the prices were put together.
    pub timestamp: Timestamp,
    /// The span over which they were gathered.
    pub recency_duration_sec: DurationSec,
    /// The prices.
    pub prices: Vec<AssetOptionalPrice>,
}

/// The prices among the first `n` of `items`: each asset with the last
/// price given for it.
pub open spec fn prices_of(items: Seq<AssetOptionalPrice>, n: nat) -> Entries<Price>
    decreases n,
{
    if n == 0 {
        Seq::<(Seq<char>, Price)>::empty()
    } else {
        let before = prices_of(items, (n - 1) as nat);
        match items[n - 1].price {
            Some(p) => upsert(before, items[n - 1].asset_id@, p),
            None => before,
        }
    }
}

/// Whether prices of the time `timestamp`, gathered over
/// `recency_duration_sec`, can be used at the time `now`.
pub open spec fn spec_price_data_valid(
    config: Config,
    timestamp: Timestamp,
    recency_duration_sec: DurationSec,
    now: Timestamp,
) -> Result<(), Error> {
    if recency_duration_sec > config.maximum_recency_duration_sec {
        Err(Error::PriceRecencyTooLarge)
    } else if timestamp > now {
        Err(Error::PriceFromFuture)
    } else if now - timestamp > config.maximum_staleness_duration_sec * NANOS_PER_SEC {
        Err(Error::PriceTooStale)
    } else {
        Ok(())
    }
}

impl Prices {
    /// The prices that `data` holds.
    pub fn from_price_data(data: &PriceData) -> (r: Prices)
        ensures
            r@ == prices_of(data.prices@, data.prices@.len()),
    {
        let mut prices: StrMap<Price> = StrMap::new();
        let mut i: usize = 0;
        while i < data.prices.len()
            invariant
                i <= data.prices@.len(),
                prices@ == prices_of(data.prices@, i as nat),
            decreases data.prices@.len() - i,
        {
            match data.prices[i].price {
                Some(p) => {
                    prices.insert(data.prices[i].asset_id.clone(), p);
                },
                None => {},
            }
            i += 1;
        }
        Prices { prices }
    }
}

impl Contract {
    /// Refuses prices that were gathered over too long a span, that come
    /// from the future, or that are too old at the time of the call.
    pub fn validate_price_data(&self, data: &PriceData) -> (r: Result<(), Error>)
        ensures
            r == spec_price_data_valid(
                self.config,
                data.timestamp,
                data.recency_duration_sec,
                self.block_timestamp,
            ),
    {
        if data.recency_duration_sec > self.config.maximum_recency_duration_sec {
            return Err(Error::PriceRecencyTooLarge);
        }
        let timestamp = self.block_timestamp;
        if data.timestamp > timestamp {
            return Err(Error::PriceFromFuture);
        }
        if timestamp - data.timestamp > to_nano(self.config.maximum_staleness_duration_sec) {
            return Err(Error::PriceTooStale);
        }
        Ok(())
    }
}

} // verus!
