//! The anchored chain's auxiliary state: the asset-class cache and the
//! reward-cycle parameters. The standardizer reads and updates it; the
//! classification of blocks never does.

use vstd::prelude::*;
use crate::stacks::PoxInfo;

verus! {

/// What is cached of one asset class: its symbol and its decimal precision.
#[derive(Debug, PartialEq, Eq)]
pub struct AssetClassCache {
    pub symbol: String,
    pub decimals: u8,
}

impl Clone for AssetClassCache {
    fn clone(&self) -> (copy: AssetClassCache)
        ensures
            copy == *self,
    {
        AssetClassCache { symbol: self.symbol.clone(), decimals: self.decimals }
    }
}

impl Default for AssetClassCache {
    fn default() -> (cache: AssetClassCache)
        ensures
            cache.symbol@ == Seq::<char>::empty(),
            cache.decimals == 0,
    {
        AssetClassCache { symbol: String::new(), decimals: 0 }
    }
}

/// Whether some entry of `entries` is keyed by `key`.
pub open spec fn has_key(entries: Seq<(String, AssetClassCache)>, key: Seq<char>) -> bool {
    exists|i: int| 0 <= i < entries.len() && (#[trigger] entries[i]).0@ == key
}

/// No two entries share a key.
pub open spec fn distinct_keys(entries: Seq<(String, AssetClassCache)>) -> bool {
    forall|i: int, j: int|
        0 <= i < entries.len() && 0 <= j < entries.len() && (#[trigger] entries[i]).0@ == (
        #[trigger] entries[j]).0@ ==> i == j
}

/// The map that a list of keyed entries stands for.
pub open spec fn spec_assets(entries: Seq<(String, AssetClassCache)>) -> Map<
    Seq<char>,
    AssetClassCache,
> {
    Map::new(
        |key: Seq<char>| has_key(entries, key),
        |key: Seq<char>|
            entries[choose|i: int| 0 <= i < entries.len() && (#[trigger] entries[i]).0@ == key].1,
    )
}

/// With distinct keys, the entry at `i` is what the map holds under its key.
pub proof fn lemma_assets_at(entries: Seq<(String, AssetClassCache)>, i: int)
    requires
        distinct_keys(entries),
        0 <= i < entries.len(),
    ensures
        spec_assets(entries).dom().contains(entries[i].0@),
        spec_assets(entries)[entries[i].0@] == entries[i].1,
{
    let key = entries[i].0@;
    assert(has_key(entries, key));
    let j = choose|j: int| 0 <= j < entries.len() && (#[trigger] entries[j]).0@ == key;
    assert(j == i);
}

/// The auxiliary state of the anchored chain.
pub struct StacksChainContext {
    asset_class_map: Vec<(String, AssetClassCache)>,
    pox_info: PoxInfo,
}

impl StacksChainContext {
    #[verifier::type_invariant]
    closed spec fn inv(self) -> bool {
        distinct_keys(self.asset_class_map@)
    }

    /// The asset-class cache: from contract identifier to what is cached.
    pub closed spec fn assets(&self) -> Map<Seq<char>, AssetClassCache> {
        spec_assets(self.asset_class_map@)
    }

    /// The reward-cycle parameters in force.
    pub closed spec fn spec_pox_info(&self) -> PoxInfo {
        self.pox_info
    }

    /// An empty cache, and the parameters of a local development network.
    pub fn new() -> (context: StacksChainContext)
        ensures
            context.assets() == Map::<Seq<char>, AssetClassCache>::empty(),
            context.spec_pox_info().is_default(),
    {
        let context = StacksChainContext {
            asset_class_map: Vec::new(),
            pox_info: PoxInfo::default(),
        };
        assert(context.assets() =~= Map::<Seq<char>, AssetClassCache>::empty());
        context
    }

    /// A copy of the reward-cycle parameters in force.
    pub fn pox_info(&self) -> (info: PoxInfo)
        ensures
            info == self.spec_pox_info(),
    {
        self.pox_info.clone()
    }

    /// Replaces the reward-cycle parameters wholesale. The cache stays.
    pub fn set_pox_info(&mut self, info: PoxInfo)
        ensures
            final(self).spec_pox_info() == info,
            final(self).assets() == old(self).assets(),
    {
        proof {
            use_type_invariant(&*self);
        }
        self.pox_info = info;
    }

    /// Where in the list the entry keyed by `contract_id` stands.
    fn position(&self, contract_id: &String) -> (found: Option<usize>)
        ensures
            match found {
                Some(i) => i < self.asset_class_map@.len() && self.asset_class_map@[i as int].0@
                    == contract_id@,
                None => !has_key(self.asset_class_map@, contract_id@),
            },
    {
        let mut i: usize = 0;
        while i < self.asset_class_map.len()
            invariant
                i <= self.asset_class_map@.len(),
                forall|j: int| 0 <= j < i ==> (#[trigger] self.asset_class_map@[j]).0@ != contract_id@,
            decreases self.asset_class_map@.len() - i,
        {
            if self.asset_class_map[i].0 == *contract_id {
                return Some(i);
            }
            i += 1;
        }
        None
    }

    /// What is cached under `contract_id`, if anything.
    pub fn asset_class(&self, contract_id: &String) -> (cached: Option<AssetClassCache>)
        ensures
            cached == (if self.assets().dom().contains(contract_id@) {
                Some(self.assets()[contract_id@])
            } else {
                None
            }),
    {
        proof {
            use_type_invariant(self);
        }
        match self.position(contract_id) {
            Some(i) => {
                proof {
                    lemma_assets_at(self.asset_class_map@, i as int);
                }
                Some(self.asset_class_map[i].1.clone())
            },
            None => None,
        }
    }

    /// Caches `cache` under `contract_id`, in place of what was cached under
    /// it before. Nothing else changes.
    pub fn insert_asset_class(&mut self, contract_id: String, cache: AssetClassCache)
        ensures
            final(self).assets() == old(self).assets().insert(contract_id@, cache),
            final(self).spec_pox_info() == old(self).spec_pox_info(),
    {
        proof {
            use_type_invariant(&*self);
        }
        let found = self.position(&contract_id);
        let ghost before = self.asset_class_map@;
        let mut entries: Vec<(String, AssetClassCache)> = Vec::new();
        std::mem::swap(&mut entries, &mut self.asset_class_map);
        match found {
            Some(i) => {
                entries.set(i, (contract_id, cache));
            },
            None => {
                entries.push((contract_id, cache));
            },
        }
        proof {
            let after = entries@;
            let k: int = match found {
                Some(i) => i as int,
                None => before.len() as int,
            };
            assert(after.len() > k && after[k].0@ == contract_id@ && after[k].1 == cache);
            assert forall|j: int| 0 <= j < after.len() && j != k implies j < before.len()
                && after[j] == before[j] && (#[trigger] after[j]).0@ != contract_id@ by {
                if found is Some {
                    assert(before[j].0@ == before[k].0@ ==> j == k);
                } else {
                    assert(!has_key(before, contract_id@));
                }
            }
            assert(distinct_keys(after));
            assert forall|key: Seq<char>| has_key(after, key) <==> (key == contract_id@ || has_key(
                before,
                key,
            )) by {
                if has_key(after, key) {
                    let j = choose|j: int| 0 <= j < after.len() && (#[trigger] after[j]).0@ == key;
                    if j != k {
                        assert(before[j].0@ == key);
                    }
                }
                if key == contract_id@ {
                    assert(after[k].0@ == key);
                }
                if has_key(before, key) && key != contract_id@ {
                    let j = choose|j: int| 0 <= j < before.len() && (#[trigger] before[j]).0@ == key;
                    assert(j != k);
                    assert(after[j].0@ == key);
                }
            }
            assert forall|key: Seq<char>| has_key(after, key) implies spec_assets(after)[key]
                == spec_assets(before).insert(contract_id@, cache)[key] by {
                let j = choose|j: int| 0 <= j < after.len() && (#[trigger] after[j]).0@ == key;
                lemma_assets_at(after, j);
                if j != k {
                    lemma_assets_at(before, j);
                }
            }
            assert(spec_assets(after) =~= spec_assets(before).insert(contract_id@, cache));
        }
        self.asset_class_map = entries;
    }
}

} // verus!
