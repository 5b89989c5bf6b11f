//! The two concrete node-store backings.
//!
//! [`LruMemStore`] pairs two independently bounded, LRU-evicting shared
//! caches (trie nodes and code blobs) with a private unbounded staging map;
//! [`BTreeStore`] is structurally identical but its shared caches never evict.
//! Either backing shares its caches across forks through reference-counted
//! handles to verified reader/writer locks; each lock guards the
//! well-formedness of its cache and, for the node cache, the
//! content-addressing invariant: every cached node sits under its own hash.
//!
//! Staged writes touch only the owning instance, so they are invisible to
//! sibling forks until `commit` publishes them in bulk under the cache lock.

use vstd::prelude::*;

use crate::hash::H256;
use crate::kv::{
    distinct_keys, has_key, key_index, lru_insert, map_insert, promoted, removed_key,
    staged_insert, value_of, LruCache, VecMap,
};
use crate::types::NodeDB;
use core::marker::PhantomData;
use std::sync::Arc;
use vstd::rwlock::RwLock;

verus! {

/// A pluggable content-address function: maps a node value to its 256-bit
/// address. It must be deterministic and collision-stable — the whole
/// correctness of content addressing and staging de-duplication rests on it —
/// which is captured by `hash` being a pure function of the node value alone.
pub trait Hasher<T> {
    /// The content address of `n`.
    spec fn spec_hash(n: T) -> H256;

    /// Compute the content address of `n`.
    fn hash(n: &T) -> (r: H256)
        ensures
            r == Self::spec_hash(*n),
    ;
}

/// Every entry's key is the content address of its value.
pub open spec fn content_addressed<T, H: Hasher<T>>(s: Seq<(H256, Arc<T>)>) -> bool {
    forall|i: int| 0 <= i < s.len() ==> H::spec_hash(*(#[trigger] s[i]).1) == (s[i]).0
}

/// Invariant guarded by the node-cache lock of the bounded backing: the cache
/// is well-formed, content-addressed, and keeps the capacity it was built with.
pub open spec fn lru_node_inv<T, H: Hasher<T>>(cap: nat) -> spec_fn(LruCache<T>) -> bool {
    |c: LruCache<T>| c.wf() && content_addressed::<T, H>(c@) && c.cap() == cap
}

/// Invariant guarded by the code-cache lock of the bounded backing. Code is
/// keyed by caller-supplied hashes, so well-formedness and the configured
/// capacity are maintained.
pub open spec fn lru_code_inv(cap: nat) -> spec_fn(LruCache<Vec<u8>>) -> bool {
    |c: LruCache<Vec<u8>>| c.wf() && c.cap() == cap
}

/// Invariant guarded by the node-cache lock of the unbounded backing.
pub open spec fn map_node_inv<T, H: Hasher<T>>() -> spec_fn(VecMap<T>) -> bool {
    |c: VecMap<T>| c.wf() && content_addressed::<T, H>(c@)
}

/// Invariant guarded by the code-cache lock of the unbounded backing.
pub open spec fn map_code_inv() -> spec_fn(VecMap<Vec<u8>>) -> bool {
    |c: VecMap<Vec<u8>>| c.wf()
}

/// A present key's value carries that key as its address.
proof fn lemma_addressed_entry<T, H: Hasher<T>>(s: Seq<(H256, Arc<T>)>, h: H256)
    requires
        content_addressed::<T, H>(s),
        has_key(s, h),
    ensures
        H::spec_hash(*value_of(s, h)) == h,
{
    let k = key_index(s, h);
    assert(0 <= k < s.len() && (s[k]).0 == h);
    assert(H::spec_hash(*(s[k]).1) == (s[k]).0);
}

/// Content addressing survives removing a key.
proof fn lemma_addressed_removed<T, H: Hasher<T>>(s: Seq<(H256, Arc<T>)>, h: H256)
    requires
        content_addressed::<T, H>(s),
    ensures
        content_addressed::<T, H>(removed_key(s, h)),
{
    if has_key(s, h) {
        let ki = key_index(s, h);
        assert(0 <= ki < s.len() && (s[ki]).0 == h);
        let r = s.remove(ki);
        s.remove_ensures(ki);
        assert forall|k: int| 0 <= k < r.len() implies H::spec_hash(*(#[trigger] r[k]).1) == (
        r[k]).0 by {
            if k < ki {
                assert(r[k] == s[k]);
            } else {
                assert(r[k] == s[k + 1]);
            }
        }
    }
}

/// Content addressing survives appending an entry whose key is its value's
/// address.
proof fn lemma_addressed_push<T, H: Hasher<T>>(s: Seq<(H256, Arc<T>)>, h: H256, v: Arc<T>)
    requires
        content_addressed::<T, H>(s),
        H::spec_hash(*v) == h,
    ensures
        content_addressed::<T, H>(s.push((h, v))),
{
    let t = s.push((h, v));
    assert forall|k: int| 0 <= k < t.len() implies H::spec_hash(*(#[trigger] t[k]).1) == (
    t[k]).0 by {
        if k < s.len() {
            assert(t[k] == s[k]);
        } else {
            assert(t[k] == (h, v));
        }
    }
}

/// Content addressing survives an insert-or-refresh of an addressed entry.
proof fn lemma_addressed_map_insert<T, H: Hasher<T>>(s: Seq<(H256, Arc<T>)>, h: H256, v: Arc<T>)
    requires
        content_addressed::<T, H>(s),
        H::spec_hash(*v) == h,
    ensures
        content_addressed::<T, H>(map_insert(s, h, v)),
{
    lemma_addressed_removed::<T, H>(s, h);
    lemma_addressed_push::<T, H>(removed_key(s, h), h, v);
}

/// Content addressing survives a bounded insert of an addressed entry.
proof fn lemma_addressed_lru_insert<T, H: Hasher<T>>(
    s: Seq<(H256, Arc<T>)>,
    cap: nat,
    h: H256,
    v: Arc<T>,
)
    requires
        content_addressed::<T, H>(s),
        H::spec_hash(*v) == h,
    ensures
        content_addressed::<T, H>(lru_insert(s, cap, h, v)),
{
    if has_key(s, h) {
        lemma_addressed_map_insert::<T, H>(s, h, v);
    } else if s.len() < cap {
        lemma_addressed_push::<T, H>(s, h, v);
    } else if cap == 0 {
    } else {
        let d = s.drop_first();
        assert forall|k: int| 0 <= k < d.len() implies H::spec_hash(*(#[trigger] d[k]).1) == (
        d[k]).0 by {
            assert(d[k] == s[k + 1]);
        }
        lemma_addressed_push::<T, H>(d, h, v);
    }
}

/// Content addressing survives refreshing a present entry's recency.
proof fn lemma_addressed_promoted<T, H: Hasher<T>>(s: Seq<(H256, Arc<T>)>, h: H256)
    requires
        content_addressed::<T, H>(s),
    ensures
        content_addressed::<T, H>(promoted(s, h)),
{
    if has_key(s, h) {
        lemma_addressed_entry::<T, H>(s, h);
        lemma_addressed_map_insert::<T, H>(s, h, value_of(s, h));
    }
}

/// Content addressing survives a first-write-wins staging insert of an
/// addressed entry.
proof fn lemma_addressed_staged_insert<T, H: Hasher<T>>(s: Seq<(H256, Arc<T>)>, h: H256, v: Arc<T>)
    requires
        content_addressed::<T, H>(s),
        H::spec_hash(*v) == h,
    ensures
        content_addressed::<T, H>(staged_insert(s, h, v)),
{
    if !has_key(s, h) {
        lemma_addressed_push::<T, H>(s, h, v);
    }
}

/// Relies on `core::marker::PhantomData`'s `Clone`: cloning the zero-sized
/// marker yields the marker again. Needed only so that the stores' derived
/// `Clone` (a snapshot that copies staging and shares the caches) is accepted.
pub assume_specification<T: core::marker::PointeeSized>[ <PhantomData<T> as Clone>::clone ](
    v: &PhantomData<T>,
) -> (r: PhantomData<T>)
    ensures
        r == *v,
;

/// The default backing.
pub type MemStore<T, H> = LruMemStore<T, H>;

/// One step of the byte fold: `acc * prime + byte`, wrapping at 64 bits.
pub open spec fn fold_step(acc: u64, b: u8) -> u64 {
    vstd::wrapping::u64_specs::wrapping_add(
        vstd::wrapping::u64_specs::wrapping_mul(acc, 0x100000001b3u64),
        b as u64,
    )
}

/// A 64-bit multiply-and-add fold over a byte string, a pure function of the
/// bytes alone.
pub open spec fn fold_hash(s: Seq<u8>) -> u64
    decreases s.len(),
{
    if s.len() == 0 {
        0xcbf29ce484222325u64
    } else {
        fold_step(fold_hash(s.drop_last()), s.last())
    }
}

/// A small deterministic [`Hasher`] over byte-string nodes, used by the tests
/// and as a reference implementation. Deployments plug in their own node
/// encoding and cryptographic hash through the [`Hasher`] trait.
#[derive(Clone, Copy, Debug)]
pub struct BytesHasher;

impl Hasher<Vec<u8>> for BytesHasher {
    /// The address of a byte-string node: its fold and its length, padded.
    open spec fn spec_hash(n: Vec<u8>) -> H256 {
        H256 { x0: fold_hash(n@), x1: n@.len() as u64, x2: 0u64, x3: 0u64 }
    }

    fn hash(n: &Vec<u8>) -> (r: H256) {
        let len: usize = n.len();
        let mut acc: u64 = 0xcbf29ce484222325;
        let mut i: usize = 0;
        while i < len
            invariant
                i <= len,
                len == n@.len(),
                acc == fold_hash(n@.subrange(0, i as int)),
            decreases len - i,
        {
            let ghost pre = n@.subrange(0, i as int);
            acc = acc.wrapping_mul(0x100000001b3).wrapping_add(n[i] as u64);
            proof {
                let cur = n@.subrange(0, i as int + 1);
                assert(cur.drop_last() =~= pre);
                assert(cur.last() == n@[i as int]);
            }
            i += 1;
        }
        proof {
            assert(n@.subrange(0, len as int) =~= n@);
        }
        H256 { x0: acc, x1: len as u64, x2: 0, x3: 0 }
    }
}

/// The bounded backing: two independently bounded LRU caches shared across
/// forks, plus a private staging map.
#[derive(Clone)]
#[verifier::reject_recursive_types(T)]
pub struct LruMemStore<T, H: Hasher<T>> {
    codes: Arc<RwLock<LruCache<Vec<u8>>, spec_fn(LruCache<Vec<u8>>) -> bool>>,
    kv: Arc<RwLock<LruCache<T>, spec_fn(LruCache<T>) -> bool>>,
    staging: VecMap<T>,
    capacity: Ghost<nat>,
    _hasher: PhantomData<H>,
}

impl<T, H: Hasher<T>> LruMemStore<T, H> {
    /// The entry limit both shared caches were built with.
    pub closed spec fn cap(&self) -> nat {
        self.capacity@
    }

    /// The shared node cache handle; equal across forks of one family.
    pub closed spec fn node_cache(&self) -> RwLock<LruCache<T>, spec_fn(LruCache<T>) -> bool> {
        *self.kv
    }

    /// The shared code cache handle; equal across forks of one family.
    pub closed spec fn code_cache(&self) -> RwLock<
        LruCache<Vec<u8>>,
        spec_fn(LruCache<Vec<u8>>) -> bool,
    > {
        *self.codes
    }

    /// Staging is a content-addressed map and both cache locks guard the
    /// invariants this backing relies on, including the configured capacity.
    pub open spec fn wf(&self) -> bool {
        &&& distinct_keys(self.staged())
        &&& content_addressed::<T, H>(self.staged())
        &&& self.node_cache().pred() == lru_node_inv::<T, H>(self.cap())
        &&& self.code_cache().pred() == lru_code_inv(self.cap())
    }

    /// A fresh store: empty shared caches, each bounded by `limit` entries
    /// and evicted independently, and empty staging.
    pub fn new(limit: usize) -> (r: Self)
        ensures
            r.wf(),
            r.staged() == Seq::<(H256, Arc<T>)>::empty(),
            r.cap() == limit,
    {
        LruMemStore {
            codes: Arc::new(RwLock::new(LruCache::new(limit), Ghost(lru_code_inv(limit as nat)))),
            kv: Arc::new(
                RwLock::new(LruCache::new(limit), Ghost(lru_node_inv::<T, H>(limit as nat))),
            ),
            staging: VecMap::new(),
            capacity: Ghost(limit as nat),
            _hasher: PhantomData,
        }
    }

    /// Empty the shared node cache; the code cache and staging are untouched.
    /// Used for cache invalidation, e.g. on a reorg.
    pub fn clear(&self)
        requires
            self.wf(),
    {
        let lock = &*self.kv;
        let (mut cache, handle) = lock.acquire_write();
        cache.clear();
        handle.release_write(cache);
    }
}

impl<T, H: Hasher<T>> NodeDB for LruMemStore<T, H> {
    type Node = T;

    open spec fn inv(&self) -> bool {
        self.wf()
    }

    open spec fn hash_of(n: T) -> H256 {
        H::spec_hash(n)
    }

    closed spec fn staged(&self) -> Seq<(H256, Arc<T>)> {
        self.staging@
    }

    /// Writes made through the fork are invisible to `self` (and vice versa)
    /// until a commit: the fork starts with empty staging and shares only the
    /// caches.
    fn fork(&self) -> (r: Self)
        ensures
            r.node_cache() == self.node_cache(),
            r.code_cache() == self.code_cache(),
            r.cap() == self.cap(),
    {
        LruMemStore {
            codes: self.codes.clone(),
            kv: self.kv.clone(),
            staging: VecMap::new(),
            capacity: Ghost(self.cap()),
            _hasher: PhantomData,
        }
    }

    /// Staging is consulted first, so a staged node is always returned
    /// (read-your-own-writes); any returned node sits under its own content
    /// address. A shared-cache hit refreshes the entry's recency.
    fn get(&self, index: &H256) -> (r: Option<Arc<T>>) {
        match self.staging.get(index) {
            Some(node) => {
                proof {
                    lemma_addressed_entry::<T, H>(self.staged(), *index);
                }
                Some(node)
            },
            None => {
                let lock = &*self.kv;
                let (mut cache, handle) = lock.acquire_write();
                let ghost c0 = cache@;
                let r = cache.get(index);
                proof {
                    if has_key(c0, *index) {
                        lemma_addressed_entry::<T, H>(c0, *index);
                    }
                    lemma_addressed_promoted::<T, H>(c0, *index);
                }
                handle.release_write(cache);
                r
            },
        }
    }

    /// Stage `node` under its hash: first write wins, the shared caches are
    /// untouched, and no other instance's state changes.
    fn add_node(&mut self, node: &Arc<T>)
        ensures
            final(self).node_cache() == old(self).node_cache(),
            final(self).code_cache() == old(self).code_cache(),
            final(self).cap() == old(self).cap(),
    {
        let h = H::hash(&**node);
        proof {
            lemma_addressed_staged_insert::<T, H>(self.staged(), h, *node);
        }
        self.staging.insert_if_absent(h, node.clone());
    }

    /// Read a code blob; a hit refreshes its recency in the code cache. The
    /// node cache and staging are untouched.
    fn get_code(&mut self, hash: &H256) -> (r: Option<Arc<Vec<u8>>>)
        ensures
            final(self).node_cache() == old(self).node_cache(),
            final(self).code_cache() == old(self).code_cache(),
            final(self).cap() == old(self).cap(),
    {
        let lock = &*self.codes;
        let (mut cache, handle) = lock.acquire_write();
        let r = cache.get(hash);
        handle.release_write(cache);
        r
    }

    /// Publish a code blob under a caller-supplied hash, immediately visible
    /// to every fork sharing the code cache. The node cache and staging are
    /// untouched.
    fn set_code(&mut self, hash: H256, code: Vec<u8>)
        ensures
            final(self).node_cache() == old(self).node_cache(),
            final(self).code_cache() == old(self).code_cache(),
            final(self).cap() == old(self).cap(),
    {
        let lock = &*self.codes;
        let (mut cache, handle) = lock.acquire_write();
        cache.insert(hash, Arc::new(code));
        handle.release_write(cache);
    }

    /// Discard the staged node with `node`'s hash, if any; everything shared
    /// is untouched.
    fn remove_staging_node(&mut self, node: &Arc<T>)
        ensures
            final(self).node_cache() == old(self).node_cache(),
            final(self).code_cache() == old(self).code_cache(),
            final(self).cap() == old(self).cap(),
    {
        let h = H::hash(&**node);
        proof {
            lemma_addressed_removed::<T, H>(self.staged(), h);
        }
        self.staging.remove(&h);
    }

    /// Wrap `node` in shared ownership, stage it, and hand it back.
    fn staging(&mut self, node: T) -> (r: Arc<T>)
        ensures
            final(self).node_cache() == old(self).node_cache(),
            final(self).code_cache() == old(self).code_cache(),
            final(self).cap() == old(self).cap(),
    {
        let wrapped = Arc::new(node);
        self.add_node(&wrapped);
        wrapped
    }

    /// Publish every staged node into the shared node cache (in staging
    /// order, under the cache lock, possibly evicting), clear staging, and
    /// return how many nodes were staged.
    fn commit(&mut self) -> (r: usize)
        ensures
            final(self).node_cache() == old(self).node_cache(),
            final(self).code_cache() == old(self).code_cache(),
            final(self).cap() == old(self).cap(),
    {
        let ghost staged0 = self.staged();
        let lock = &*self.kv;
        let (mut cache, handle) = lock.acquire_write();
        let n: usize = self.staging.len();
        let mut i: usize = 0;
        while i < n
            invariant
                i <= n,
                n == self.staging@.len(),
                self.staging@ == staged0,
                distinct_keys(staged0),
                content_addressed::<T, H>(staged0),
                cache.wf(),
                content_addressed::<T, H>(cache@),
                cache.cap() == old(self).cap(),
            decreases n - i,
        {
            let h = self.staging.key_at(i);
            let v = self.staging.value_at(i);
            proof {
                assert(H::spec_hash(*(staged0[i as int]).1) == (staged0[i as int]).0);
                lemma_addressed_lru_insert::<T, H>(cache@, cache.cap(), h, v);
            }
            cache.insert(h, v);
            i += 1;
        }
        handle.release_write(cache);
        self.staging.clear();
        n
    }
}

/// The unbounded backing: structurally identical to [`LruMemStore`], but the
/// two shared caches are maps with no capacity limit and no eviction — memory
/// grows with the distinct nodes and code blobs ever committed, and a
/// committed node is never lost.
///
/// Entries are kept in a deterministic order: by insertion (a commit drains
/// staging oldest-first), not by hash. The order is observable only through
/// the backing map's positional accessors and through which entries of an
/// over-capacity commit survive a bounded cache.
#[derive(Clone)]
#[verifier::reject_recursive_types(T)]
pub struct BTreeStore<T, H: Hasher<T>> {
    codes: Arc<RwLock<VecMap<Vec<u8>>, spec_fn(VecMap<Vec<u8>>) -> bool>>,
    kv: Arc<RwLock<VecMap<T>, spec_fn(VecMap<T>) -> bool>>,
    staging: VecMap<T>,
    _hasher: PhantomData<H>,
}

impl<T, H: Hasher<T>> BTreeStore<T, H> {
    /// The shared node cache handle; equal across forks of one family.
    pub closed spec fn node_cache(&self) -> RwLock<VecMap<T>, spec_fn(VecMap<T>) -> bool> {
        *self.kv
    }

    /// The shared code cache handle; equal across forks of one family.
    pub closed spec fn code_cache(&self) -> RwLock<
        VecMap<Vec<u8>>,
        spec_fn(VecMap<Vec<u8>>) -> bool,
    > {
        *self.codes
    }

    /// Staging is a content-addressed map and both cache locks guard the
    /// invariants this backing relies on.
    pub open spec fn wf(&self) -> bool {
        &&& distinct_keys(self.staged())
        &&& content_addressed::<T, H>(self.staged())
        &&& self.node_cache().pred() == map_node_inv::<T, H>()
        &&& self.code_cache().pred() == map_code_inv()
    }

    /// A fresh store: empty, unbounded shared caches and empty staging.
    pub fn new() -> (r: Self)
        ensures
            r.wf(),
            r.staged() == Seq::<(H256, Arc<T>)>::empty(),
    {
        BTreeStore {
            codes: Arc::new(RwLock::new(VecMap::new(), Ghost(map_code_inv()))),
            kv: Arc::new(RwLock::new(VecMap::new(), Ghost(map_node_inv::<T, H>()))),
            staging: VecMap::new(),
            _hasher: PhantomData,
        }
    }

    /// Empty the shared node cache; the code cache and staging are untouched.
    pub fn clear(&self)
        requires
            self.wf(),
    {
        let lock = &*self.kv;
        let (mut cache, handle) = lock.acquire_write();
        cache.clear();
        handle.release_write(cache);
    }
}

impl<T, H: Hasher<T>> NodeDB for BTreeStore<T, H> {
    type Node = T;

    open spec fn inv(&self) -> bool {
        self.wf()
    }

    open spec fn hash_of(n: T) -> H256 {
        H::spec_hash(n)
    }

    closed spec fn staged(&self) -> Seq<(H256, Arc<T>)> {
        self.staging@
    }

    /// Writes made through the fork are invisible to `self` (and vice versa)
    /// until a commit: the fork starts with empty staging and shares only the
    /// caches.
    fn fork(&self) -> (r: Self)
        ensures
            r.node_cache() == self.node_cache(),
            r.code_cache() == self.code_cache(),
    {
        BTreeStore {
            codes: self.codes.clone(),
            kv: self.kv.clone(),
            staging: VecMap::new(),
            _hasher: PhantomData,
        }
    }

    /// Staging is consulted first, so a staged node is always returned
    /// (read-your-own-writes); any returned node sits under its own content
    /// address. This backing's lookups never reorder the shared cache.
    fn get(&self, index: &H256) -> (r: Option<Arc<T>>) {
        match self.staging.get(index) {
            Some(node) => {
                proof {
                    lemma_addressed_entry::<T, H>(self.staged(), *index);
                }
                Some(node)
            },
            None => {
                let lock = &*self.kv;
                let read_handle = lock.acquire_read();
                let cache = read_handle.borrow();
                let r = cache.get(index);
                proof {
                    if has_key(cache@, *index) {
                        lemma_addressed_entry::<T, H>(cache@, *index);
                    }
                }
                read_handle.release_read();
                r
            },
        }
    }

    /// Stage `node` under its hash: first write wins, the shared caches are
    /// untouched, and no other instance's state changes.
    fn add_node(&mut self, node: &Arc<T>)
        ensures
            final(self).node_cache() == old(self).node_cache(),
            final(self).code_cache() == old(self).code_cache(),
    {
        let h = H::hash(&**node);
        proof {
            lemma_addressed_staged_insert::<T, H>(self.staged(), h, *node);
        }
        self.staging.insert_if_absent(h, node.clone());
    }

    /// Read a code blob; this backing never reorders or evicts, so the code
    /// cache itself is untouched, as are the node cache and staging.
    fn get_code(&mut self, hash: &H256) -> (r: Option<Arc<Vec<u8>>>)
        ensures
            final(self).node_cache() == old(self).node_cache(),
            final(self).code_cache() == old(self).code_cache(),
    {
        let lock = &*self.codes;
        let read_handle = lock.acquire_read();
        let cache = read_handle.borrow();
        let r = cache.get(hash);
        read_handle.release_read();
        r
    }

    /// Publish a code blob under a caller-supplied hash, immediately visible
    /// to every fork sharing the code cache. The node cache and staging are
    /// untouched.
    fn set_code(&mut self, hash: H256, code: Vec<u8>)
        ensures
            final(self).node_cache() == old(self).node_cache(),
            final(self).code_cache() == old(self).code_cache(),
    {
        let lock = &*self.codes;
        let (mut cache, handle) = lock.acquire_write();
        cache.insert(hash, Arc::new(code));
        handle.release_write(cache);
    }

    /// Discard the staged node with `node`'s hash, if any; everything shared
    /// is untouched.
    fn remove_staging_node(&mut self, node: &Arc<T>)
        ensures
            final(self).node_cache() == old(self).node_cache(),
            final(self).code_cache() == old(self).code_cache(),
    {
        let h = H::hash(&**node);
        proof {
            lemma_addressed_removed::<T, H>(self.staged(), h);
        }
        self.staging.remove(&h);
    }

    /// Wrap `node` in shared ownership, stage it, and hand it back.
    fn staging(&mut self, node: T) -> (r: Arc<T>)
        ensures
            final(self).node_cache() == old(self).node_cache(),
            final(self).code_cache() == old(self).code_cache(),
    {
        let wrapped = Arc::new(node);
        self.add_node(&wrapped);
        wrapped
    }

    /// Publish every staged node into the shared node cache (in staging
    /// order, under the cache lock, never evicting), clear staging, and
    /// return how many nodes were staged.
    fn commit(&mut self) -> (r: usize)
        ensures
            final(self).node_cache() == old(self).node_cache(),
            final(self).code_cache() == old(self).code_cache(),
    {
        let ghost staged0 = self.staged();
        let lock = &*self.kv;
        let (mut cache, handle) = lock.acquire_write();
        let n: usize = self.staging.len();
        let mut i: usize = 0;
        while i < n
            invariant
                i <= n,
                n == self.staging@.len(),
                self.staging@ == staged0,
                distinct_keys(staged0),
                content_addressed::<T, H>(staged0),
                cache.wf(),
                content_addressed::<T, H>(cache@),
            decreases n - i,
        {
            let h = self.staging.key_at(i);
            let v = self.staging.value_at(i);
            proof {
                assert(H::spec_hash(*(staged0[i as int]).1) == (staged0[i as int]).0);
                lemma_addressed_map_insert::<T, H>(cache@, h, v);
            }
            cache.insert(h, v);
            i += 1;
        }
        handle.release_write(cache);
        self.staging.clear();
        n
    }
}

} // verus!
