//! The bounded store of leaf certificates, one per host.
use cached::{Cached, SizedCache};
use vstd::prelude::*;

verus! {

#[verifier::external_type_specification]
#[verifier::external_body]
#[verifier::reject_recursive_types(K)]
#[verifier::reject_recursive_types(V)]
pub struct ExSizedCache<K, V>(SizedCache<K, V>);

/// A leaf certificate and its private key, both PEM-encoded.
#[derive(Clone)]
pub struct Leaf {
    pub cert: Vec<u8>,
    pub key: Vec<u8>,
}

impl Leaf {
    pub open spec fn view(&self) -> (Seq<u8>, Seq<u8>) {
        (self.cert@, self.key@)
    }
}

/// The entries that a sized cache holds, by host.
pub uninterp spec fn cache_entries(c: SizedCache<String, Leaf>) -> Map<Seq<char>, (Seq<u8>, Seq<u8>)>;

/// The size that a sized cache was made with.
pub uninterp spec fn cache_bound(c: SizedCache<String, Leaf>) -> nat;

/// What setting `k` to `v` does to a cache bounded by `bound`: the entry is
/// added or replaced, and when a new key meets a full cache exactly one other
/// entry leaves.
pub open spec fn set_step<K, V>(before: Map<K, V>, after: Map<K, V>, k: K, v: V, bound: nat) -> bool {
    if before.contains_key(k) || before.len() < bound {
        after == before.insert(k, v)
    } else {
        exists|e: K| before.contains_key(e) && e != k && after == before.remove(e).insert(k, v)
    }
}

/// Relies on `SizedCache::with_size`: an empty cache of the given size; it
/// panics on zero.
#[verifier::external_body]
fn sized_with_size(size: usize) -> (r: SizedCache<String, Leaf>)
    requires
        size > 0,
    ensures
        cache_entries(r).dom().finite(),
        cache_entries(r).len() == 0,
        cache_bound(r) == size,
{
    SizedCache::with_size(size)
}

/// Relies on `Cached::cache_get` of `SizedCache`: the value stored under the
/// key, if any, cloned; a hit only moves the key up the recency order.
#[verifier::external_body]
fn sized_get(c: &mut SizedCache<String, Leaf>, k: &String) -> (r: Option<Leaf>)
    ensures
        cache_entries(*final(c)) == cache_entries(*old(c)),
        cache_bound(*final(c)) == cache_bound(*old(c)),
        r is Some <==> cache_entries(*old(c)).contains_key(k@),
        r matches Some(l) ==> l.view() == cache_entries(*old(c))[k@],
{
    c.cache_get(k).cloned()
}

/// Relies on `Cached::cache_set` of `SizedCache`: the value is stored under the
/// key; when that makes the cache hold more than its size, the least recently
/// used entry, never the new one, is evicted.
#[verifier::external_body]
fn sized_set(c: &mut SizedCache<String, Leaf>, k: String, v: Leaf)
    ensures
        cache_bound(*final(c)) == cache_bound(*old(c)),
        set_step(cache_entries(*old(c)), cache_entries(*final(c)), k@, v.view(), cache_bound(*old(c))),
{
    c.cache_set(k, v);
}

/// Relies on `Cached::cache_size` of `SizedCache`: the number of entries.
#[verifier::external_body]
fn sized_len(c: &SizedCache<String, Leaf>) -> (r: usize)
    ensures
        r == cache_entries(*c).len(),
{
    c.cache_size()
}

/// How many leaves the cache keeps.
pub const LEAF_CACHE_SIZE: usize = 50;

/// Leaf certificates by host, at most `LEAF_CACHE_SIZE` of them.
pub struct LeafCache {
    inner: SizedCache<String, Leaf>,
}

impl LeafCache {
    pub closed spec fn view(&self) -> Map<Seq<char>, (Seq<u8>, Seq<u8>)> {
        cache_entries(self.inner)
    }

    pub closed spec fn wf(&self) -> bool {
        &&& cache_bound(self.inner) == LEAF_CACHE_SIZE
        &&& self.view().dom().finite()
        &&& self.view().len() <= LEAF_CACHE_SIZE
    }

    pub fn new() -> (r: LeafCache)
        ensures
            r.wf(),
            r@ == Map::<Seq<char>, (Seq<u8>, Seq<u8>)>::empty(),
            r@.dom().finite(),
    {
        let r = LeafCache { inner: sized_with_size(LEAF_CACHE_SIZE) };
        proof {
            r@.dom().lemma_len0_is_empty();
            assert(r@ =~= Map::<Seq<char>, (Seq<u8>, Seq<u8>)>::empty());
        }
        r
    }

    /// The leaf kept for `host`, if any; the entries do not change.
    pub fn lookup(&mut self, host: &String) -> (r: Option<Leaf>)
        requires
            old(self).wf(),
        ensures
            final(self).wf(),
            final(self)@ == old(self)@,
            final(self)@.dom().finite(),
            final(self)@.len() <= LEAF_CACHE_SIZE,
            r is Some <==> old(self)@.contains_key(host@),
            r matches Some(l) ==> l.view() == old(self)@[host@],
    {
        sized_get(&mut self.inner, host)
    }

    /// Keeps `leaf` for `host`; on a full cache a new host displaces one entry.
    pub fn store(&mut self, host: String, leaf: Leaf)
        requires
            old(self).wf(),
        ensures
            final(self).wf(),
            final(self)@.dom().finite(),
            final(self)@.len() <= LEAF_CACHE_SIZE,
            set_step(old(self)@, final(self)@, host@, leaf.view(), LEAF_CACHE_SIZE as nat),
    {
        let ghost k = host@;
        let ghost v = leaf.view();
        sized_set(&mut self.inner, host, leaf);
        proof {
            let before = old(self)@;
            let after = self@;
            if !(before.contains_key(k) || before.len() < LEAF_CACHE_SIZE) {
                let e = choose|e: Seq<char>| before.contains_key(e) && e != k && after == before.remove(e).insert(k, v);
                assert(before.remove(e).len() == before.len() - 1);
            }
        }
    }

    /// The number of hosts kept.
    pub fn len(&self) -> (r: usize)
        requires
            self.wf(),
        ensures
            r == self@.len(),
            r <= LEAF_CACHE_SIZE,
    {
        sized_len(&self.inner)
    }
}

/// Storing a leaf for a host leaves that very leaf behind for it, so that
/// lookups that follow, which change no entry, return copies of it.
pub proof fn lemma_stored_is_found<K, V>(before: Map<K, V>, after: Map<K, V>, k: K, v: V, bound: nat)
    requires
        set_step(before, after, k, v, bound),
    ensures
        after.contains_key(k),
        after[k] == v,
{
    if !(before.contains_key(k) || before.len() < bound) {
        let e = choose|e: K| before.contains_key(e) && e != k && after == before.remove(e).insert(k, v);
    }
}

/// Storing distinct hosts one after another into an empty cache, no more of
/// them than it can hold, keeps every one of them: the cache then holds as many
/// entries as there were hosts, each with the leaf stored for it.
pub proof fn lemma_distinct_hosts_all_kept(
    steps: Seq<Map<Seq<char>, (Seq<u8>, Seq<u8>)>>,
    hosts: Seq<Seq<char>>,
    leaves: Seq<(Seq<u8>, Seq<u8>)>,
)
    requires
        steps.len() == hosts.len() + 1,
        leaves.len() == hosts.len(),
        hosts.len() <= LEAF_CACHE_SIZE,
        hosts.no_duplicates(),
        steps[0].dom().finite(),
        steps[0].len() == 0,
        forall|i: int| 0 <= i < hosts.len() ==> #[trigger] set_step(steps[i], steps[i + 1], hosts[i], leaves[i], LEAF_CACHE_SIZE as nat),
    ensures
        steps.last().len() == hosts.len(),
        forall|i: int| 0 <= i < hosts.len() ==> steps.last().contains_key(#[trigger] hosts[i]) && steps.last()[hosts[i]] == leaves[i],
{
    lemma_prefix_kept(steps, hosts, leaves, hosts.len() as int);
}

proof fn lemma_prefix_kept(
    steps: Seq<Map<Seq<char>, (Seq<u8>, Seq<u8>)>>,
    hosts: Seq<Seq<char>>,
    leaves: Seq<(Seq<u8>, Seq<u8>)>,
    n: int,
)
    requires
        0 <= n <= hosts.len(),
        steps.len() == hosts.len() + 1,
        leaves.len() == hosts.len(),
        hosts.len() <= LEAF_CACHE_SIZE,
        hosts.no_duplicates(),
        steps[0].dom().finite(),
        steps[0].len() == 0,
        forall|i: int| 0 <= i < hosts.len() ==> #[trigger] set_step(steps[i], steps[i + 1], hosts[i], leaves[i], LEAF_CACHE_SIZE as nat),
    ensures
        steps[n].dom().finite(),
        steps[n].len() == n,
        forall|k: Seq<char>| steps[n].contains_key(k) <==> exists|i: int| 0 <= i < n && hosts[i] == k,
        forall|i: int| 0 <= i < n ==> steps[n][#[trigger] hosts[i]] == leaves[i],
    decreases n,
{
    if n == 0 {
        steps[0].dom().lemma_len0_is_empty();
    } else {
        lemma_prefix_kept(steps, hosts, leaves, n - 1);
        let m = n - 1;
        assert(set_step(steps[m], steps[m + 1], hosts[m], leaves[m], LEAF_CACHE_SIZE as nat));
        assert(!steps[m].contains_key(hosts[m])) by {
            if steps[m].contains_key(hosts[m]) {
                let i = choose|i: int| 0 <= i < m && hosts[i] == hosts[m];
                assert(hosts[i] == hosts[m]);
            }
        }
        assert(steps[n] == steps[m].insert(hosts[m], leaves[m]));
        assert forall|k: Seq<char>| steps[n].contains_key(k) <==> exists|i: int| 0 <= i < n && hosts[i] == k by {
            if steps[n].contains_key(k) && k != hosts[m] {
                assert(steps[m].contains_key(k));
            }
            if exists|i: int| 0 <= i < n && hosts[i] == k {
                let i = choose|i: int| 0 <= i < n && hosts[i] == k;
                if i < m {
                    assert(steps[m].contains_key(hosts[i]));
                }
            }
        }
        assert forall|i: int| 0 <= i < n implies steps[n][#[trigger] hosts[i]] == leaves[i] by {
            if i < m {
                assert(hosts[i] != hosts[m]);
            }
        }
    }
}

/// A new host that meets a full cache evicts exactly one entry, and the cache
/// stays at its size.
pub proof fn lemma_full_cache_evicts_one(
    before: Map<Seq<char>, (Seq<u8>, Seq<u8>)>,
    after: Map<Seq<char>, (Seq<u8>, Seq<u8>)>,
    k: Seq<char>,
    v: (Seq<u8>, Seq<u8>),
)
    requires
        before.dom().finite(),
        before.len() == LEAF_CACHE_SIZE,
        !before.contains_key(k),
        set_step(before, after, k, v, LEAF_CACHE_SIZE as nat),
    ensures
        after.len() == LEAF_CACHE_SIZE,
        after.contains_key(k),
        before.dom().difference(after.dom()).len() == 1,
{
    let e = choose|e: Seq<char>| before.contains_key(e) && e != k && after == before.remove(e).insert(k, v);
    assert(before.remove(e).len() == before.len() - 1);
    assert(before.dom().difference(after.dom()) =~= set![e]);
}

} // verus!
