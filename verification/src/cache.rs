//! A model of the cache service, as far as sessions use it: hashes of
//! text fields under text keys, each key with a time to live. Nothing here
//! runs; it says what a write plan does to a cache, so that laws about
//! persisting can be stated.

use vstd::prelude::*;
use crate::sessions::{cache_key_text, PersistPlan, SESSION_TTL_SECONDS};
use crate::store::{pairs_map, StoreState};

verus! {

/// One hash in the cache.
#[verifier::ext_equal]
pub ghost struct CacheEntry {
    /// The fields of the hash. A hash in the cache has at least one.
    pub fields: Map<Seq<char>, Seq<char>>,
    /// Seconds to live as last set, or `None` where the key does not expire.
    pub ttl: Option<nat>,
}

/// The hashes of a cache, by key. An absent key reads as an empty hash.
#[verifier::ext_equal]
pub ghost struct Cache {
    pub hashes: Map<Seq<char>, CacheEntry>,
}

impl Cache {
    /// `HGETALL key`: all fields of the hash, none where the key is absent.
    pub open spec fn hgetall(self, key: Seq<char>) -> Map<Seq<char>, Seq<char>> {
        if self.hashes.contains_key(key) {
            self.hashes[key].fields
        } else {
            Map::empty()
        }
    }

    /// `HSET key field value ...`: sets the given fields and keeps the
    /// others. With no field to set the command is refused and nothing
    /// changes.
    pub open spec fn hset_multiple(self, key: Seq<char>, fields: Map<Seq<char>, Seq<char>>) -> Cache {
        if fields.dom() == Set::<Seq<char>>::empty() {
            self
        } else if self.hashes.contains_key(key) {
            Cache {
                hashes: self.hashes.insert(
                    key,
                    CacheEntry {
                        fields: self.hashes[key].fields.union_prefer_right(fields),
                        ttl: self.hashes[key].ttl,
                    },
                ),
            }
        } else {
            Cache { hashes: self.hashes.insert(key, CacheEntry { fields, ttl: None }) }
        }
    }

    /// `EXPIRE key seconds`: sets the time to live of a key that exists.
    pub open spec fn expire(self, key: Seq<char>, seconds: nat) -> Cache {
        if self.hashes.contains_key(key) {
            Cache {
                hashes: self.hashes.insert(
                    key,
                    CacheEntry { fields: self.hashes[key].fields, ttl: Some(seconds) },
                ),
            }
        } else {
            self
        }
    }

    /// The cache after a write plan was carried out: first the fields, then
    /// the expiry.
    pub open spec fn persisted(self, plan: PersistPlan) -> Cache {
        self.hset_multiple(plan.cache_key@, pairs_map(plan.fields@)).expire(
            plan.cache_key@,
            plan.expire_seconds as nat,
        )
    }
}

/// Persisting is idempotent: carrying a plan out twice leaves the cache as
/// carrying it out once does, and the expiry window is set anew each time.
pub proof fn lemma_persist_idempotent(cache: Cache, plan: PersistPlan)
    ensures
        cache.persisted(plan).persisted(plan) == cache.persisted(plan),
        cache.persisted(plan).hashes.contains_key(plan.cache_key@) ==> cache.persisted(
            plan,
        ).hashes[plan.cache_key@].ttl == Some(plan.expire_seconds as nat),
{
    let key = plan.cache_key@;
    let fields = pairs_map(plan.fields@);
    let once = cache.persisted(plan);
    let twice = once.persisted(plan);
    if fields.dom() == Set::<Seq<char>>::empty() {
        assert(twice.hashes =~= once.hashes);
    } else {
        assert(once.hashes[key].fields.union_prefer_right(fields) =~= once.hashes[key].fields);
        assert(twice.hashes =~= once.hashes);
    }
}

/// Persistence idempotence: persisting the same store content twice
/// leaves the cache as persisting it once does, whatever the two plans'
/// order of fields, and each time the expiry window is set anew.
pub proof fn lemma_set_store_twice(
    cache: Cache,
    store: StoreState,
    first: PersistPlan,
    second: PersistPlan,
)
    requires
        first.persists(store),
        second.persists(store),
    ensures
        cache.persisted(first).persisted(second) == cache.persisted(first),
        cache.persisted(first) == cache.persisted(second),
        store.values.dom().len() > 0 ==> cache.persisted(first).hashes[cache_key_text(
            store.key,
        )].ttl == Some(SESSION_TTL_SECONDS as nat),
{
    lemma_persist_idempotent(cache, first);
    assert(cache.persisted(first).persisted(second) == cache.persisted(first).persisted(first));
    if store.values.dom().len() > 0 {
        assert(store.values.dom() != Set::<Seq<char>>::empty());
    }
}

/// What was persisted is read back: where the cache held no field of the
/// session that the payload lacks, the hash under the session's key is the
/// payload after the plan was carried out.
pub proof fn lemma_persisted_is_read_back(cache: Cache, plan: PersistPlan)
    requires
        cache.hgetall(plan.cache_key@).dom().subset_of(pairs_map(plan.fields@).dom()),
    ensures
        cache.persisted(plan).hgetall(plan.cache_key@) == pairs_map(plan.fields@),
{
    let key = plan.cache_key@;
    let fields = pairs_map(plan.fields@);
    if fields.dom() == Set::<Seq<char>>::empty() {
        assert(cache.hgetall(key).dom() =~= Set::<Seq<char>>::empty());
        assert(cache.persisted(plan).hgetall(key) =~= fields);
    } else {
        assert(cache.persisted(plan).hgetall(key) =~= fields);
    }
}

} // verus!
