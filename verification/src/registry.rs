//! The pool registry: a concurrent map from pool address to pool
//! descriptor, filled once at startup and read by the analyzer.

use vstd::prelude::*;
use crate::words::Address;

verus! {

/// The two pool variants the registry can hold.
#[derive(Clone, Copy, Debug, PartialEq, Eq, Structural)]
pub enum PoolKind {
    UniswapV2,
    UniswapV3,
}

/// A pool's descriptor: its address and its two constituent tokens.
#[derive(Clone, Debug)]
pub struct PoolInfo {
    pub address: Address,
    pub token_a: Address,
    pub token_b: Address,
}

/// A liquidity pool known to the registry.
#[derive(Clone, Debug)]
pub enum Pool {
    UniswapV2(PoolInfo),
    UniswapV3(PoolInfo),
}

/// The mathematical content of a pool descriptor.
pub struct PoolModel {
    pub kind: PoolKind,
    pub address: Seq<u8>,
    pub token_a: Seq<u8>,
    pub token_b: Seq<u8>,
}

impl View for Pool {
    type V = PoolModel;

    open spec fn view(&self) -> PoolModel {
        match *self {
            Pool::UniswapV2(i) => PoolModel {
                kind: PoolKind::UniswapV2,
                address: i.address@,
                token_a: i.token_a@,
                token_b: i.token_b@,
            },
            Pool::UniswapV3(i) => PoolModel {
                kind: PoolKind::UniswapV3,
                address: i.address@,
                token_a: i.token_a@,
                token_b: i.token_b@,
            },
        }
    }
}

/// True when one of the pool's two constituent tokens is `t`.
pub open spec fn pool_has_token(p: PoolModel, t: Seq<u8>) -> bool {
    p.token_a == t || p.token_b == t
}

impl Pool {
    /// The pool's own address.
    pub fn address(&self) -> (r: &Address)
        ensures
            r@ == self@.address,
    {
        match self {
            Pool::UniswapV2(i) => &i.address,
            Pool::UniswapV3(i) => &i.address,
        }
    }

    /// True exactly when one of the pool's two tokens is `t`.
    pub fn contains_token(&self, t: &Address) -> (r: bool)
        ensures
            r == pool_has_token(self@, t@),
    {
        let info = match self {
            Pool::UniswapV2(i) => i,
            Pool::UniswapV3(i) => i,
        };
        info.token_a.same_as(t) || info.token_b.same_as(t)
    }
}

/// The concurrent map the registry is built on.
pub type PoolMap = dashmap::DashMap<Vec<u8>, Pool>;

/// What a pool map holds: each key is the byte string of an address,
/// mapped to the descriptor stored under it.
pub uninterp spec fn pool_map_view(m: PoolMap) -> Map<Seq<u8>, PoolModel>;

#[verifier::external_type_specification]
#[verifier::external_body]
#[verifier::reject_recursive_types(K)]
#[verifier::reject_recursive_types(V)]
#[verifier::reject_recursive_types(S)]
pub struct ExDashMap<K, V, S>(dashmap::DashMap<K, V, S>);

/// The mapping with no entries.
pub open spec fn empty_pool_map() -> Map<Seq<u8>, PoolModel> {
    Map::empty()
}

/// Relies on dashmap::DashMap::new: a map with no entries.
#[verifier::external_body]
fn pool_map_new() -> (m: PoolMap)
    ensures
        pool_map_view(m) == empty_pool_map(),
{
    dashmap::DashMap::new()
}

/// Relies on dashmap::DashMap::insert: the key now maps to the value and
/// every other key is untouched.
#[verifier::external_body]
fn pool_map_insert(m: &mut PoolMap, key: Vec<u8>, value: Pool)
    ensures
        pool_map_view(*final(m)) == pool_map_view(*old(m)).insert(key@, value@),
{
    m.insert(key, value);
}

/// Relies on dashmap::DashMap::get: the value the key maps to, if the
/// key is present.
#[verifier::external_body]
fn pool_map_get(m: &PoolMap, key: &Vec<u8>) -> (r: Option<Pool>)
    ensures
        match r {
            Option::Some(p) => pool_map_view(*m).dom().contains(key@) && p@ == pool_map_view(
                *m,
            )[key@],
            Option::None => !pool_map_view(*m).dom().contains(key@),
        },
{
    match m.get(key) {
        Some(entry) => Some(entry.value().clone()),
        None => None,
    }
}

/// The registry built by inserting each pool under its own address, in
/// order: of two pools with one address, the later one stays.
pub open spec fn registry_of(pools: Seq<Pool>) -> Map<Seq<u8>, PoolModel>
    decreases pools.len(),
{
    if pools.len() == 0 {
        Map::empty()
    } else {
        registry_of(pools.drop_last()).insert(pools.last()@.address, pools.last()@)
    }
}

/// The registry of known pools, keyed by pool address. No two entries
/// share an address. Filled once at startup; the analyzer only reads it.
pub struct PoolRegistry {
    map: PoolMap,
}

impl PoolRegistry {
    /// The mapping the registry holds, from address bytes to descriptor.
    pub closed spec fn pools(&self) -> Map<Seq<u8>, PoolModel> {
        pool_map_view(self.map)
    }

    /// An empty registry.
    pub fn new() -> (r: PoolRegistry)
        ensures
            r.pools() == Map::<Seq<u8>, PoolModel>::empty(),
    {
        PoolRegistry { map: pool_map_new() }
    }

    /// Stores one pool under its own address, replacing any pool already
    /// there.
    pub fn insert(&mut self, pool: Pool)
        ensures
            final(self).pools() == old(self).pools().insert(pool@.address, pool@),
    {
        let key = crate::words::copy_bytes(&pool.address().bytes);
        pool_map_insert(&mut self.map, key, pool);
    }

    /// The pool stored under the address, if any.
    pub fn get(&self, address: &Address) -> (r: Option<Pool>)
        ensures
            match r {
                Option::Some(p) => self.pools().dom().contains(address@) && p@ == self.pools()[
                    address@
                ],
                Option::None => !self.pools().dom().contains(address@),
            },
    {
        pool_map_get(&self.map, &address.bytes)
    }

    /// The registry holding exactly the given pools, each under its own
    /// address, inserted in order.
    pub fn from_pools(pools: Vec<Pool>) -> (r: PoolRegistry)
        ensures
            r.pools() == registry_of(pools@),
    {
        let ghost all = pools@;
        let mut pools = pools;
        let mut r = PoolRegistry::new();
        let ghost mut i: int = 0;
        proof {
            assert(all.skip(0) =~= all);
            assert(registry_of(all.take(0)) =~= Map::<Seq<u8>, PoolModel>::empty());
        }
        while pools.len() > 0
            invariant
                0 <= i <= all.len(),
                pools@ == all.skip(i),
                r.pools() == registry_of(all.take(i)),
            decreases all.len() - i,
        {
            let pool = pools.remove(0);
            proof {
                assert(pool == all[i]);
                assert(pools@ =~= all.skip(i + 1));
                assert(all.take(i + 1).drop_last() =~= all.take(i));
                assert(all.take(i + 1).last() == all[i]);
            }
            r.insert(pool);
            proof {
                i = i + 1;
            }
        }
        proof {
            assert(all.take(i) =~= all);
        }
        r
    }
}

} // verus!
