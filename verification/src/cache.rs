//! The read cache: per-SKU item lookups in a bounded least-recently-used
//! map with a time-to-live, and single TTL-guarded slots for the aggregate
//! reads. Mutations of the underlying rows invalidate at minimum the
//! aggregate slots; a direct item mutation also evicts that item's entry.
//!
//! The LRU map itself comes from an outside crate; its contents are named
//! `lru_items` and every method the cache calls is specified against that
//! name, as the crate's source shows it.

use vstd::prelude::*;

use lru::LruCache;

use crate::models::CategoryStats;
use crate::models::DashboardStats;
use crate::models::InventoryItem;

verus! {

/// How long one item entry stays fresh, in milliseconds (five minutes).
pub const ITEM_TTL_MILLIS: u64 = 300_000;

/// How long an aggregate slot stays fresh, in milliseconds (one minute).
pub const AGGREGATE_TTL_MILLIS: u64 = 60_000;

/// How many item entries the cache holds at most.
pub const ITEM_CACHE_CAPACITY: usize = 500;

/// A cached value with the instant it expires.
pub struct CacheEntry<T> {
    pub value: T,
    pub expires_at: u64,
}

/// When a value cached at `now` with the given time-to-live expires; the
/// clock saturates rather than wrap.
pub open spec fn expiry_at(now: u64, ttl: u64) -> u64 {
    if now + ttl > u64::MAX {
        u64::MAX
    } else {
        (now + ttl) as u64
    }
}

impl<T> CacheEntry<T> {
    /// Cache a value at `now` for `ttl` milliseconds.
    pub fn new(value: T, ttl: u64, now: u64) -> (r: CacheEntry<T>)
        ensures
            r == (CacheEntry { value: value, expires_at: expiry_at(now, ttl) }),
    {
        let expires_at: u64 = if ttl > u64::MAX - now {
            u64::MAX
        } else {
            now + ttl
        };
        CacheEntry { value, expires_at }
    }

    /// Whether the entry has outlived its time-to-live at instant `now`.
    pub fn is_expired(&self, now: u64) -> (r: bool)
        ensures
            r == (now > self.expires_at),
    {
        now > self.expires_at
    }
}

// ==================== The outside LRU map ====================

#[verifier::external_type_specification]
#[verifier::external_body]
#[verifier::reject_recursive_types(K)]
#[verifier::reject_recursive_types(V)]
#[verifier::reject_recursive_types(S)]
pub struct ExLruCache<K, V, S>(LruCache<K, V, S>);

#[verifier::external_type_specification]
#[verifier::external_body]
pub struct ExDefaultHasher(lru::DefaultHasher);

/// What the item cache holds: the entry stored under each SKU.
pub uninterp spec fn lru_items(c: LruCache<String, CacheEntry<InventoryItem>>) -> Map<
    Seq<char>,
    CacheEntry<InventoryItem>,
>;

/// The fixed capacity the item cache was created with.
pub uninterp spec fn lru_cap(c: LruCache<String, CacheEntry<InventoryItem>>) -> nat;

/// The empty cache contents.
pub open spec fn no_entries() -> Map<Seq<char>, CacheEntry<InventoryItem>> {
    Map::empty()
}

/// Relies on `lru::LruCache::new`: a fresh cache is empty and holds at most
/// `cap` entries.
#[verifier::external_body]
fn lru_new(cap: usize) -> (r: LruCache<String, CacheEntry<InventoryItem>>)
    requires
        cap >= 1,
    ensures
        lru_items(r) == no_entries(),
        lru_cap(r) == cap as nat,
{
    LruCache::new(std::num::NonZeroUsize::new(cap).unwrap())
}

/// Relies on `lru::LruCache::get`: returns the entry under the key if
/// present; only the recency order moves, never the contents.
#[verifier::external_body]
fn lru_get<'a>(c: &'a mut LruCache<String, CacheEntry<InventoryItem>>, sku: &str) -> (r: Option<
    &'a CacheEntry<InventoryItem>,
>)
    ensures
        lru_items(*final(c)) == lru_items(*old(c)),
        lru_cap(*final(c)) == lru_cap(*old(c)),
        match r {
            Some(e) => lru_items(*old(c)).dom().contains(sku@) && *e == lru_items(*old(c))[sku@],
            None => !lru_items(*old(c)).dom().contains(sku@),
        },
{
    c.get(sku)
}

/// Relies on `lru::LruCache::put`: stores the entry under the key, replacing
/// a present one; at capacity, the least-recently-used other entry leaves to
/// make room.
#[verifier::external_body]
fn lru_put(
    c: &mut LruCache<String, CacheEntry<InventoryItem>>,
    sku: String,
    entry: CacheEntry<InventoryItem>,
)
    ensures
        lru_cap(*final(c)) == lru_cap(*old(c)),
        lru_items(*old(c)).dom().contains(sku@) || lru_items(*old(c)).len() < lru_cap(*old(c))
            ==> lru_items(*final(c)) == lru_items(*old(c)).insert(sku@, entry),
        !(lru_items(*old(c)).dom().contains(sku@) || lru_items(*old(c)).len() < lru_cap(*old(c)))
            ==> (exists|victim: Seq<char>|
            lru_items(*old(c)).dom().contains(victim) && victim != sku@ && lru_items(*final(c))
                == #[trigger] lru_items(*old(c)).remove(victim).insert(sku@, entry)),
{
    let _ = c.put(sku, entry);
}

/// Relies on `lru::LruCache::pop`: removes and returns the entry under the
/// key, if any.
#[verifier::external_body]
fn lru_pop(c: &mut LruCache<String, CacheEntry<InventoryItem>>, sku: &str) -> (r: Option<
    CacheEntry<InventoryItem>,
>)
    ensures
        lru_cap(*final(c)) == lru_cap(*old(c)),
        lru_items(*final(c)) == lru_items(*old(c)).remove(sku@),
        match r {
            Some(e) => lru_items(*old(c)).dom().contains(sku@) && e == lru_items(*old(c))[sku@],
            None => !lru_items(*old(c)).dom().contains(sku@),
        },
{
    c.pop(sku)
}

/// Relies on `lru::LruCache::clear`: removes every entry.
#[verifier::external_body]
fn lru_clear(c: &mut LruCache<String, CacheEntry<InventoryItem>>)
    ensures
        lru_cap(*final(c)) == lru_cap(*old(c)),
        lru_items(*final(c)) == no_entries(),
{
    c.clear()
}

// ==================== The application cache ====================

/// The application-level read cache.
pub struct AppCache {
    pub items_by_sku: LruCache<String, CacheEntry<InventoryItem>>,
    pub all_items: Option<CacheEntry<Vec<InventoryItem>>>,
    pub dashboard_stats: Option<CacheEntry<DashboardStats>>,
    pub category_stats: Option<CacheEntry<Vec<CategoryStats>>>,
}

impl AppCache {
    /// An empty cache with the fixed item capacity.
    pub fn new() -> (r: AppCache)
        ensures
            lru_items(r.items_by_sku) == no_entries(),
            lru_cap(r.items_by_sku) == ITEM_CACHE_CAPACITY as nat,
            r.all_items is None,
            r.dashboard_stats is None,
            r.category_stats is None,
    {
        AppCache {
            items_by_sku: lru_new(ITEM_CACHE_CAPACITY),
            all_items: None,
            dashboard_stats: None,
            category_stats: None,
        }
    }

    /// Read the cached item under `sku`: a fresh entry is returned as a
    /// copy; an expired or missing one is evicted and reported as a miss, so
    /// the caller recomputes from storage.
    pub fn get_item(&mut self, sku: &str, now: u64) -> (r: Option<InventoryItem>)
        ensures
            lru_cap(final(self).items_by_sku) == lru_cap(old(self).items_by_sku),
            final(self).all_items == old(self).all_items,
            final(self).dashboard_stats == old(self).dashboard_stats,
            final(self).category_stats == old(self).category_stats,
            r matches Some(it) ==> lru_items(final(self).items_by_sku) == lru_items(
                old(self).items_by_sku,
            ) && lru_items(old(self).items_by_sku).dom().contains(sku@) && now <= lru_items(
                old(self).items_by_sku,
            )[sku@].expires_at && it@ == lru_items(old(self).items_by_sku)[sku@].value@,
            r is None ==> lru_items(final(self).items_by_sku) == lru_items(
                old(self).items_by_sku,
            ).remove(sku@) && (!lru_items(old(self).items_by_sku).dom().contains(sku@) || now
                > lru_items(old(self).items_by_sku)[sku@].expires_at),
    {
        let hit: Option<InventoryItem> = match lru_get(&mut self.items_by_sku, sku) {
            Some(e) => if !e.is_expired(now) {
                Some(e.value.duplicate())
            } else {
                None
            },
            None => None,
        };
        match hit {
            Some(v) => Some(v),
            None => {
                let _ = lru_pop(&mut self.items_by_sku, sku);
                None
            },
        }
    }

    /// Cache an item under its SKU for the item time-to-live.
    pub fn set_item(&mut self, sku: String, item: InventoryItem, now: u64)
        ensures
            lru_cap(final(self).items_by_sku) == lru_cap(old(self).items_by_sku),
            final(self).all_items == old(self).all_items,
            final(self).dashboard_stats == old(self).dashboard_stats,
            final(self).category_stats == old(self).category_stats,
            lru_items(old(self).items_by_sku).dom().contains(sku@) || lru_items(
                old(self).items_by_sku,
            ).len() < lru_cap(old(self).items_by_sku) ==> lru_items(final(self).items_by_sku)
                == lru_items(old(self).items_by_sku).insert(
                sku@,
                (CacheEntry { value: item, expires_at: expiry_at(now, ITEM_TTL_MILLIS) }),
            ),
            !(lru_items(old(self).items_by_sku).dom().contains(sku@) || lru_items(
                old(self).items_by_sku,
            ).len() < lru_cap(old(self).items_by_sku)) ==> (exists|victim: Seq<char>|
                lru_items(old(self).items_by_sku).dom().contains(victim) && victim != sku@
                    && lru_items(final(self).items_by_sku) == #[trigger] lru_items(
                    old(self).items_by_sku,
                ).remove(victim).insert(
                    sku@,
                    (CacheEntry { value: item, expires_at: expiry_at(now, ITEM_TTL_MILLIS) }),
                )),
    {
        let entry = CacheEntry::new(item, ITEM_TTL_MILLIS, now);
        lru_put(&mut self.items_by_sku, sku, entry);
    }

    /// Evict the item under `sku` and clear every aggregate slot: the
    /// underlying row changed.
    pub fn invalidate_item(&mut self, sku: &str)
        ensures
            lru_cap(final(self).items_by_sku) == lru_cap(old(self).items_by_sku),
            lru_items(final(self).items_by_sku) == lru_items(old(self).items_by_sku).remove(sku@),
            final(self).all_items is None,
            final(self).dashboard_stats is None,
            final(self).category_stats is None,
    {
        let _ = lru_pop(&mut self.items_by_sku, sku);
        self.all_items = None;
        self.dashboard_stats = None;
        self.category_stats = None;
    }

    /// Read the cached all-items list, if fresh at `now`.
    pub fn get_all_items(&self, now: u64) -> (r: Option<Vec<InventoryItem>>)
        ensures
            r is Some <==> (self.all_items matches Some(e) && now <= e.expires_at),
            r matches Some(v) ==> (self.all_items matches Some(e) && v@.map_values(
                |x: InventoryItem| x@,
            ) == e.value@.map_values(|x: InventoryItem| x@)),
    {
        match &self.all_items {
            Some(e) => if !e.is_expired(now) {
                let mut out: Vec<InventoryItem> = Vec::new();
                let mut i: usize = 0;
                while i < e.value.len()
                    invariant
                        i <= e.value@.len(),
                        out@.len() == i,
                        forall|j: int| 0 <= j < i ==> out@[j]@ == e.value@[j]@,
                    decreases e.value@.len() - i,
                {
                    out.push(e.value[i].duplicate());
                    i += 1;
                }
                proof {
                    assert(out@.map_values(|x: InventoryItem| x@) =~= e.value@.map_values(
                        |x: InventoryItem| x@,
                    ));
                }
                Some(out)
            } else {
                None
            },
            None => None,
        }
    }

    /// Cache the all-items list for the aggregate time-to-live.
    pub fn set_all_items(&mut self, items: Vec<InventoryItem>, now: u64)
        ensures
            final(self).items_by_sku == old(self).items_by_sku,
            final(self).dashboard_stats == old(self).dashboard_stats,
            final(self).category_stats == old(self).category_stats,
            final(self).all_items == Some(
                CacheEntry { value: items, expires_at: expiry_at(now, AGGREGATE_TTL_MILLIS) },
            ),
    {
        self.all_items = Some(CacheEntry::new(items, AGGREGATE_TTL_MILLIS, now));
    }

    /// Read the cached dashboard statistics, if fresh at `now`.
    pub fn get_dashboard_stats(&self, now: u64) -> (r: Option<DashboardStats>)
        ensures
            r is Some <==> (self.dashboard_stats matches Some(e) && now <= e.expires_at),
            r matches Some(v) ==> (self.dashboard_stats matches Some(e) && v == e.value),
    {
        match &self.dashboard_stats {
            Some(e) => if !e.is_expired(now) {
                Some(e.value)
            } else {
                None
            },
            None => None,
        }
    }

    /// Cache the dashboard statistics for the aggregate time-to-live.
    pub fn set_dashboard_stats(&mut self, stats: DashboardStats, now: u64)
        ensures
            final(self).items_by_sku == old(self).items_by_sku,
            final(self).all_items == old(self).all_items,
            final(self).category_stats == old(self).category_stats,
            final(self).dashboard_stats == Some(
                CacheEntry { value: stats, expires_at: expiry_at(now, AGGREGATE_TTL_MILLIS) },
            ),
    {
        self.dashboard_stats = Some(CacheEntry::new(stats, AGGREGATE_TTL_MILLIS, now));
    }

    /// Read the cached per-category statistics, if fresh at `now`.
    pub fn get_category_stats(&self, now: u64) -> (r: Option<Vec<CategoryStats>>)
        ensures
            r is Some <==> (self.category_stats matches Some(e) && now <= e.expires_at),
            r matches Some(v) ==> (self.category_stats matches Some(e) && v@.map_values(
                |x: CategoryStats| x@,
            ) == e.value@.map_values(|x: CategoryStats| x@)),
    {
        match &self.category_stats {
            Some(e) => if !e.is_expired(now) {
                let mut out: Vec<CategoryStats> = Vec::new();
                let mut i: usize = 0;
                while i < e.value.len()
                    invariant
                        i <= e.value@.len(),
                        out@.len() == i,
                        forall|j: int| 0 <= j < i ==> out@[j]@ == e.value@[j]@,
                    decreases e.value@.len() - i,
                {
                    out.push(e.value[i].duplicate());
                    i += 1;
                }
                proof {
                    assert(out@.map_values(|x: CategoryStats| x@) =~= e.value@.map_values(
                        |x: CategoryStats| x@,
                    ));
                }
                Some(out)
            } else {
                None
            },
            None => None,
        }
    }

    /// Cache the per-category statistics for the aggregate time-to-live.
    pub fn set_category_stats(&mut self, stats: Vec<CategoryStats>, now: u64)
        ensures
            final(self).items_by_sku == old(self).items_by_sku,
            final(self).all_items == old(self).all_items,
            final(self).dashboard_stats == old(self).dashboard_stats,
            final(self).category_stats == Some(
                CacheEntry { value: stats, expires_at: expiry_at(now, AGGREGATE_TTL_MILLIS) },
            ),
    {
        self.category_stats = Some(CacheEntry::new(stats, AGGREGATE_TTL_MILLIS, now));
    }

    /// Empty everything: a bulk operation (import, seed, reset) touched the
    /// underlying rows.
    pub fn invalidate_all(&mut self)
        ensures
            lru_cap(final(self).items_by_sku) == lru_cap(old(self).items_by_sku),
            lru_items(final(self).items_by_sku) == no_entries(),
            final(self).all_items is None,
            final(self).dashboard_stats is None,
            final(self).category_stats is None,
    {
        lru_clear(&mut self.items_by_sku);
        self.all_items = None;
        self.dashboard_stats = None;
        self.category_stats = None;
    }

    /// Clear the aggregate slots only: a transaction touched rows but item
    /// entries are evicted individually.
    pub fn invalidate_aggregates(&mut self)
        ensures
            final(self).items_by_sku == old(self).items_by_sku,
            final(self).all_items is None,
            final(self).dashboard_stats is None,
            final(self).category_stats is None,
    {
        self.all_items = None;
        self.dashboard_stats = None;
        self.category_stats = None;
    }
}

// ==================== Laws ====================

/// Law: after an item is invalidated, a lookup of that SKU always misses
/// (the map no longer has the key), so the caller recomputes from storage.
pub proof fn lemma_invalidated_misses(m: Map<Seq<char>, CacheEntry<InventoryItem>>, sku: Seq<char>)
    ensures
        !m.remove(sku).dom().contains(sku),
{
}

/// Law: once a TTL window has elapsed since a value was cached, the entry is
/// expired at every later instant — a cached aggregate read recomputes even
/// with no invalidation call.
pub proof fn lemma_ttl_elapse(now: u64, ttl: u64, later: u64)
    requires
        later > now + ttl,
    ensures
        later > expiry_at(now, ttl),
{
}

} // verus!
