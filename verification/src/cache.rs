//! Bounded, least-recently-used cache of published verification keys: one
//! entry per key-discovery endpoint, holding the key set the endpoint last
//! published as `(key id, modulus, exponent)` triples.
//!
//! The store is `lru::LruCache`, modeled by two named projections: the map
//! from endpoint to key set, and the recency order (most recent first).

use vstd::prelude::*;

verus! {

/// Fixed capacity of the key cache, in endpoints.
pub const CACHE_CAPACITY: usize = 10;

/// One published key: its identifier, modulus and exponent.
pub type KeyEntry = (String, String, String);

/// A published key set, as fetched from one endpoint.
pub type KeySet = Vec<KeyEntry>;

#[verifier::external_type_specification]
#[verifier::external_body]
#[verifier::reject_recursive_types(K)]
#[verifier::reject_recursive_types(V)]
#[verifier::reject_recursive_types(S)]
pub struct ExLruCache<K, V, S>(lru::LruCache<K, V, S>);

/// What the cache holds: each endpoint's key set.
pub uninterp spec fn lru_contents(c: lru::LruCache<String, KeySet>) -> Map<
    Seq<char>,
    Seq<KeyEntry>,
>;

/// The endpoints by recency, most recently used first.
pub uninterp spec fn lru_order(c: lru::LruCache<String, KeySet>) -> Seq<
    Seq<char>,
>;

/// The capacity the cache was made with.
pub uninterp spec fn lru_cap(c: lru::LruCache<String, KeySet>) -> nat;

/// An empty contents map.
pub open spec fn empty_contents() -> Map<Seq<char>, Seq<KeyEntry>> {
    Map::empty()
}

/// An empty recency order.
pub open spec fn empty_order() -> Seq<Seq<char>> {
    Seq::empty()
}

/// `k` moved to the front of the recency order.
pub open spec fn spec_promote(order: Seq<Seq<char>>, k: Seq<char>) -> Seq<Seq<char>> {
    seq![k] + order.filter(|x: Seq<char>| x != k)
}

/// One whole-replace store: an already-cached endpoint is updated and
/// promoted; a fresh endpoint at capacity evicts the least-recently-used
/// one; otherwise the fresh endpoint simply enters at the front.
pub open spec fn spec_store(
    contents: Map<Seq<char>, Seq<KeyEntry>>,
    order: Seq<Seq<char>>,
    cap: nat,
    k: Seq<char>,
    v: Seq<KeyEntry>,
) -> (Map<Seq<char>, Seq<KeyEntry>>, Seq<Seq<char>>) {
    if contents.dom().contains(k) {
        (contents.insert(k, v), spec_promote(order, k))
    } else if order.len() >= cap && order.len() > 0 {
        (contents.remove(order.last()).insert(k, v), seq![k] + order.drop_last())
    } else {
        (contents.insert(k, v), seq![k] + order)
    }
}

/// The key with identifier `kid` in a published set; when the set repeats an
/// identifier, the later entry wins, as a map built by insertion would have
/// it.
pub open spec fn spec_kid_lookup(set: Seq<KeyEntry>, kid: Seq<char>) -> Option<
    (String, String),
>
    decreases set.len(),
{
    if set.len() == 0 {
        None
    } else if set.last().0@ == kid {
        Some((set.last().1, set.last().2))
    } else {
        spec_kid_lookup(set.drop_last(), kid)
    }
}

/// Relies on lru::LruCache::get: a hit returns the endpoint's set and
/// promotes the endpoint to most recently used; a miss changes nothing.
#[verifier::external_body]
fn lru_get(
    c: &mut lru::LruCache<String, KeySet>,
    k: &String,
) -> (r: Option<KeySet>)
    ensures
        lru_cap(*final(c)) == lru_cap(*old(c)),
        lru_contents(*final(c)) == lru_contents(*old(c)),
        match r {
            Some(v) => lru_contents(*old(c)).dom().contains(k@) && v@ == lru_contents(*old(c))[k@]
                && lru_order(*final(c)) == spec_promote(lru_order(*old(c)), k@),
            None => !lru_contents(*old(c)).dom().contains(k@) && lru_order(*final(c)) == lru_order(
                *old(c),
            ),
        },
{
    c.get(k).cloned()
}

/// Relies on lru::LruCache::put: replaces or inserts the endpoint's set,
/// promoting it and evicting the least-recently-used entry at capacity.
#[verifier::external_body]
fn lru_put(
    c: &mut lru::LruCache<String, KeySet>,
    k: String,
    v: KeySet,
)
    ensures
        lru_cap(*final(c)) == lru_cap(*old(c)),
        ({
            let (nc, no) = spec_store(
                lru_contents(*old(c)),
                lru_order(*old(c)),
                lru_cap(*old(c)),
                k@,
                v@,
            );
            lru_contents(*final(c)) == nc && lru_order(*final(c)) == no
        }),
{
    let _ = c.put(k, v);
}

/// Relies on lru::LruCache::len: how many endpoints are cached.
#[verifier::external_body]
fn lru_len(c: &lru::LruCache<String, KeySet>) -> (r: usize)
    ensures
        r == lru_order(*c).len(),
{
    c.len()
}

/// Relies on lru::LruCache::peek: reads an endpoint's presence without
/// touching recency.
#[verifier::external_body]
fn lru_peek(
    c: &lru::LruCache<String, KeySet>,
    k: &String,
) -> (r: Option<KeySet>)
    ensures
        match r {
            Some(v) => lru_contents(*c).dom().contains(k@) && v@ == lru_contents(*c)[k@],
            None => !lru_contents(*c).dom().contains(k@),
        },
{
    c.peek(k).cloned()
}

/// The lookup contract: a cached endpoint is promoted and its set searched;
/// an uncached endpoint leaves the cache as it was and yields nothing.
pub open spec fn spec_lookup_post(
    c_old: JwksKeyCache,
    c_new: JwksKeyCache,
    endpoint: String,
    kid: String,
    r: Option<(String, String)>,
) -> bool {
    &&& c_new.contents() == c_old.contents()
    &&& c_new.capacity() == c_old.capacity()
    &&& c_old.contents().dom().contains(endpoint@) ==> {
        &&& c_new.order() == spec_promote(c_old.order(), endpoint@)
        &&& r == spec_kid_lookup(c_old.contents()[endpoint@], kid@)
    }
    &&& !c_old.contents().dom().contains(endpoint@) ==> {
        &&& c_new.order() == c_old.order()
        &&& r is None
    }
}

/// The modulus and exponent that `kid` selects in a published set; when the
/// set repeats an identifier, the later entry wins.
pub fn kid_search(set: &KeySet, kid: &String) -> (r: Option<(String, String)>)
    ensures
        r == spec_kid_lookup(set@, kid@),
{
    proof {
        assert(set@.subrange(0, set@.len() as int) =~= set@);
    }
    let mut i: usize = set.len();
    while i > 0
        invariant
            i <= set@.len(),
            spec_kid_lookup(set@, kid@) == spec_kid_lookup(set@.subrange(0, i as int), kid@),
        decreases i,
    {
        proof {
            let pre = set@.subrange(0, i as int);
            assert(pre.last() == set@[i - 1]);
            assert(pre.drop_last() =~= set@.subrange(0, i - 1));
        }
        if set[i - 1].0.eq(kid) {
            let hit = (set[i - 1].1.clone(), set[i - 1].2.clone());
            proof {
                assert(hit == (set@[i - 1].1, set@[i - 1].2));
            }
            return Some(hit);
        }
        i = i - 1;
    }
    proof {
        assert(set@.subrange(0, 0) =~= Seq::<KeyEntry>::empty());
    }
    None
}

/// The shared key cache: endpoint to last-published key set, bounded at
/// `CACHE_CAPACITY` endpoints with least-recently-used eviction.
pub struct JwksKeyCache {
    cache: lru::LruCache<String, KeySet>,
}

impl JwksKeyCache {
    /// Each endpoint's cached key set.
    pub closed spec fn contents(&self) -> Map<Seq<char>, Seq<KeyEntry>> {
        lru_contents(self.cache)
    }

    /// The endpoints by recency, most recently used first.
    pub closed spec fn order(&self) -> Seq<Seq<char>> {
        lru_order(self.cache)
    }

    /// The fixed capacity.
    pub closed spec fn capacity(&self) -> nat {
        lru_cap(self.cache)
    }

    /// Relies on lru::LruCache::new: an empty cache of the given capacity.
    #[verifier::external_body]
    fn with_capacity(cap: usize) -> (r: JwksKeyCache)
        requires
            cap >= 1,
        ensures
            r.contents() == empty_contents(),
            r.order() == empty_order(),
            r.capacity() == cap,
    {
        JwksKeyCache { cache: lru::LruCache::new(core::num::NonZeroUsize::new(cap).unwrap()) }
    }

    /// An empty cache of `CACHE_CAPACITY` endpoints.
    pub fn new() -> (r: Self)
        ensures
            r.contents() == empty_contents(),
            r.order() == empty_order(),
            r.capacity() == CACHE_CAPACITY as nat,
    {
        JwksKeyCache::with_capacity(CACHE_CAPACITY)
    }

    /// Looks `kid` up in the endpoint's cached set. A cached endpoint is
    /// promoted to most recently used, whether or not it vouches for `kid`;
    /// an uncached endpoint changes nothing.
    pub fn lookup(&mut self, endpoint: &String, kid: &String) -> (r: Option<(String, String)>)
        ensures
            spec_lookup_post(*old(self), *final(self), *endpoint, *kid, r),
    {
        let set = match lru_get(&mut self.cache, endpoint) {
            Some(s) => s,
            None => {
                return None;
            },
        };
        kid_search(&set, kid)
    }

    /// Whole-replaces the endpoint's cached set, evicting the
    /// least-recently-used endpoint when a fresh one arrives at capacity.
    pub fn store(&mut self, endpoint: String, keys: KeySet)
        ensures
            final(self).capacity() == old(self).capacity(),
            ({
                let (nc, no) = spec_store(
                    old(self).contents(),
                    old(self).order(),
                    old(self).capacity(),
                    endpoint@,
                    keys@,
                );
                final(self).contents() == nc && final(self).order() == no
            }),
    {
        lru_put(&mut self.cache, endpoint, keys);
    }

    /// How many endpoints are cached.
    pub fn len(&self) -> (r: usize)
        ensures
            r == self.order().len(),
    {
        lru_len(&self.cache)
    }

    /// Whether the endpoint is cached, without touching recency.
    pub fn contains_endpoint(&self, endpoint: &String) -> (r: bool)
        ensures
            r == self.contents().dom().contains(endpoint@),
    {
        lru_peek(&self.cache, endpoint).is_some()
    }
}

} // verus!
