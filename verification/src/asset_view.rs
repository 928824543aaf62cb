//! Assets as they are shown to the outside, a page at a time.

use crate::asset::{Asset, AssetModel};
use crate::contract::Contract;
use crate::error::Error;
use crate::fold::{fold_results, lemma_fold_sticky};
use crate::nft_pool::NftPool;
use crate::str_map::{lemma_deep, lookup};
use crate::utils::{NFTContractId, Timestamp, TokenId};
use vstd::prelude::*;

verus! {

/// Where a page of a list of `len` items starts and ends: at `from_index`,
/// or at the first item, and `limit` items on, or at the last item.  A page
/// that starts behind the list is empty.
pub open spec fn spec_page_bounds(len: nat, from_index: Option<u64>, limit: Option<u64>) -> (nat, nat) {
    let from: nat = match from_index {
        Some(f) => f as nat,
        None => 0,
    };
    let end: nat = match limit {
        Some(l) => if from + l < len {
            (from + l) as nat
        } else {
            len
        },
        None => len,
    };
    if from < end {
        (from, end)
    } else {
        (end, end)
    }
}

/// The page of `items` that `from_index` and `limit` ask for.
pub open spec fn page_of<T>(items: Seq<T>, from_index: Option<u64>, limit: Option<u64>) -> Seq<T> {
    let bounds = spec_page_bounds(items.len(), from_index, limit);
    items.subrange(bounds.0 as int, bounds.1 as int)
}

/// Where a page of a list of `len` items starts and ends.
pub fn page_bounds(len: usize, from_index: Option<u64>, limit: Option<u64>) -> (r: (usize, usize))
    ensures
        (r.0 as nat, r.1 as nat) == spec_page_bounds(len as nat, from_index, limit),
        r.0 <= r.1 <= len,
{
    let from: u64 = match from_index {
        Some(f) => f,
        None => 0,
    };
    let end: usize = match limit {
        Some(l) => if l < len as u64 && from < len as u64 - l {
            (from + l) as usize
        } else {
            len
        },
        None => len,
    };
    if from < end as u64 {
        (from as usize, end)
    } else {
        (end, end)
    }
}

/// A list of assets with their tokens as the contracts see it.
pub open spec fn assets_view(assets: Seq<(TokenId, Asset)>) -> Seq<(Seq<char>, AssetModel)> {
    Seq::new(assets.len(), |i: int| (assets[i].0@, assets[i].1@))
}

/// The list of assets with one more, brought up to the time `now`.
pub open spec fn asset_shown(
    now: Timestamp,
    shown: Seq<(Seq<char>, AssetModel)>,
    entry: (Seq<char>, AssetModel),
) -> Result<Seq<(Seq<char>, AssetModel)>, Error> {
    match entry.1.updated(now) {
        Err(e) => Err(e),
        Ok(asset) => Ok(shown.push((entry.0, asset))),
    }
}

/// `asset_shown` as the step of a fold.
pub open spec fn show_step(now: Timestamp) -> spec_fn(
    Seq<(Seq<char>, AssetModel)>,
    (Seq<char>, AssetModel),
) -> Result<Seq<(Seq<char>, AssetModel)>, Error> {
    |shown: Seq<(Seq<char>, AssetModel)>, entry: (Seq<char>, AssetModel)|
        asset_shown(now, shown, entry)
}

impl Contract {
    /// The assets of a page of the ledger's list, each with its token and
    /// brought up to the time of the call.
    #[verifier::loop_isolation(false)]
    pub fn get_assets_paged(&self, from_index: Option<u64>, limit: Option<u64>) -> (r: Result<
        Vec<(TokenId, Asset)>,
        Error,
    >)
        ensures
            match fold_results(
                Seq::<(Seq<char>, AssetModel)>::empty(),
                page_of(self@.assets, from_index, limit),
                show_step(self.block_timestamp),
                page_of(self@.assets, from_index, limit).len(),
            ) {
                Ok(v) => r matches Ok(x) && assets_view(x@) == v,
                Err(e) => r matches Err(e2) && e2 == e,
            },
    {
        let (start, end) = page_bounds(self.assets.len(), from_index, limit);
        let ghost page = page_of(self@.assets, from_index, limit);
        let ghost none = Seq::<(Seq<char>, AssetModel)>::empty();
        let ghost step = show_step(self.block_timestamp);
        let mut shown: Vec<(TokenId, Asset)> = Vec::new();
        assert(assets_view(shown@) =~= none);
        let mut i: usize = start;
        while i < end
            invariant
                start <= i <= end,
                page.len() == end - start,
                fold_results(none, page, step, (i - start) as nat) == Ok::<
                    Seq<(Seq<char>, AssetModel)>,
                    Error,
                >(assets_view(shown@)),
            decreases end - i,
        {
            proof {
                lemma_fold_sticky(none, page, step, (i - start + 1) as nat, page.len());
                assert(page[i - start] == self@.assets[i as int]);
            }
            let token_id = self.assets.key_at(i).clone();
            let mut asset = self.assets.value_at(i).clone();
            asset.update(self.block_timestamp)?;
            let ghost before = shown@;
            shown.push((token_id, asset));
            assert(assets_view(shown@) =~= assets_view(before).push((token_id@, asset@)));
            i += 1;
        }
        Ok(shown)
    }

    /// A page of the non-fungible tokens in the pool of the asset
    /// `nft_contract_id`, the newest first.
    #[verifier::loop_isolation(false)]
    pub fn get_nft_assets_paged(
        &self,
        nft_contract_id: &NFTContractId,
        from_index: Option<u64>,
        limit: Option<u64>,
    ) -> (r: Result<Vec<NftPool>, Error>)
        ensures
            match lookup(self@.assets, nft_contract_id@) {
                None => r matches Err(e) && e == Error::AssetNotFound,
                Some(asset) => r matches Ok(v) && v@ == page_of(
                    asset.nft_supplied.reverse(),
                    from_index,
                    limit,
                ),
            },
    {
        proof {
            use_type_invariant(&self.assets);
            lemma_deep(self.assets@, nft_contract_id@);
        }
        let asset = match self.assets.get(nft_contract_id) {
            Some(asset) => asset,
            None => {
                return Err(Error::AssetNotFound);
            },
        };
        let len = asset.nft_supplied.len();
        let (start, end) = page_bounds(len, from_index, limit);
        let ghost newest_first = asset.nft_supplied@.reverse();
        let mut page: Vec<NftPool> = Vec::new();
        let mut i: usize = start;
        while i < end
            invariant
                start <= i <= end <= len,
                page@ =~= newest_first.subrange(start as int, i as int),
            decreases end - i,
        {
            page.push(asset.nft_supplied[len - 1 - i].clone());
            i += 1;
        }
        Ok(page)
    }

    /// The number of non-fungible tokens in the pool of the asset
    /// `nft_contract_id`, as far as a `u32` can tell it.
    pub fn get_num_nfts(&self, nft_contract_id: &NFTContractId) -> (r: Result<u32, Error>)
        ensures
            match lookup(self@.assets, nft_contract_id@) {
                None => r == Err::<u32, Error>(Error::AssetNotFound),
                Some(asset) => r == Ok::<u32, Error>(
                    if asset.nft_supplied.len() <= u32::MAX {
                        asset.nft_supplied.len() as u32
                    } else {
                        u32::MAX
                    },
                ),
            },
    {
        proof {
            use_type_invariant(&self.assets);
            lemma_deep(self.assets@, nft_contract_id@);
        }
        match self.assets.get(nft_contract_id) {
            None => Err(Error::AssetNotFound),
            Some(asset) => {
                let len = asset.nft_supplied.len();
                if len <= u32::MAX as usize {
                    Ok(len as u32)
                } else {
                    Ok(u32::MAX)
                }
            },
        }
    }
}

} // verus!
