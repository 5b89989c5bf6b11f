//! Verified key/value backings for the node store.
//!
//! Both backings keep their entries in a vector of `(address, value)` pairs
//! with pairwise-distinct addresses. The position of an entry carries the
//! recency/insertion order: the front is the oldest (least recently touched)
//! entry, the back the newest. [`VecMap`] is the unbounded backing and never
//! drops an entry; [`LruCache`] is bounded by a capacity fixed at construction
//! and drops the front entry when a fresh key arrives at a full cache.
//!
//! The spec-level model of either structure is its entry sequence; the
//! transition functions [`map_insert`], [`staged_insert`], [`lru_insert`],
//! [`promoted`] and [`removed_key`] say exactly how each operation rewrites
//! that sequence.

use vstd::prelude::*;

use crate::hash::H256;
use std::sync::Arc;

verus! {

/// No two entries share an address.
pub open spec fn distinct_keys<V>(s: Seq<(H256, V)>) -> bool {
    forall|i: int, j: int| 0 <= i < j < s.len() ==> (#[trigger] s[i]).0 != (#[trigger] s[j]).0
}

/// Some entry binds the address `h`.
pub open spec fn has_key<V>(s: Seq<(H256, V)>, h: H256) -> bool {
    exists|i: int| 0 <= i < s.len() && (#[trigger] s[i]).0 == h
}

/// The position of the entry binding `h` (meaningful when `has_key` holds;
/// unique under `distinct_keys`).
pub open spec fn key_index<V>(s: Seq<(H256, V)>, h: H256) -> int {
    choose|i: int| 0 <= i < s.len() && (#[trigger] s[i]).0 == h
}

/// The value bound to `h`.
pub open spec fn value_of<V>(s: Seq<(H256, V)>, h: H256) -> V
    recommends
        has_key(s, h),
{
    s[key_index(s, h)].1
}

/// `s` without its entry for `h`; `s` itself when `h` is absent.
pub open spec fn removed_key<V>(s: Seq<(H256, V)>, h: H256) -> Seq<(H256, V)> {
    if has_key(s, h) {
        s.remove(key_index(s, h))
    } else {
        s
    }
}

/// Insert or refresh: the entry for `h` lands in the most recent slot, the back.
pub open spec fn map_insert<V>(s: Seq<(H256, V)>, h: H256, v: V) -> Seq<(H256, V)> {
    removed_key(s, h).push((h, v))
}

/// First-write-wins staging insert: a no-op when `h` is already bound.
pub open spec fn staged_insert<V>(s: Seq<(H256, V)>, h: H256, v: V) -> Seq<(H256, V)> {
    if has_key(s, h) {
        s
    } else {
        s.push((h, v))
    }
}

/// Bounded insert: as [`map_insert`], except that a fresh key arriving at a
/// full cache drops the least recently used entry, the front.
pub open spec fn lru_insert<V>(s: Seq<(H256, V)>, cap: nat, h: H256, v: V) -> Seq<(H256, V)> {
    if has_key(s, h) {
        map_insert(s, h, v)
    } else if s.len() < cap {
        s.push((h, v))
    } else if cap == 0 {
        s
    } else {
        s.drop_first().push((h, v))
    }
}

/// The entry for `h` moved to the most recent slot, every binding unchanged.
pub open spec fn promoted<V>(s: Seq<(H256, V)>, h: H256) -> Seq<(H256, V)> {
    if has_key(s, h) {
        map_insert(s, h, value_of(s, h))
    } else {
        s
    }
}

/// Under distinct keys the witness position of a present key is unique, so
/// `key_index` and `value_of` agree with any index that exhibits the key.
pub proof fn lemma_key_at<V>(s: Seq<(H256, V)>, i: int)
    requires
        distinct_keys(s),
        0 <= i < s.len(),
    ensures
        has_key(s, (s[i]).0),
        key_index(s, (s[i]).0) == i,
        value_of(s, (s[i]).0) == (s[i]).1,
{
    assert(0 <= i < s.len() && (s[i]).0 == (s[i]).0);
    let j = key_index(s, (s[i]).0);
    assert(0 <= j < s.len() && (s[j]).0 == (s[i]).0);
    if i < j {
        assert((s[i]).0 != (s[j]).0);
        assert(false);
    } else if j < i {
        assert((s[j]).0 != (s[i]).0);
        assert(false);
    }
}

/// Removing the entry at position `i` keeps keys distinct, drops exactly that
/// key, and leaves every other binding in place.
pub proof fn lemma_remove_entry<V>(s: Seq<(H256, V)>, i: int)
    requires
        distinct_keys(s),
        0 <= i < s.len(),
    ensures
        distinct_keys(s.remove(i)),
        !has_key(s.remove(i), (s[i]).0),
        forall|h: H256| h != (s[i]).0 ==> has_key(s.remove(i), h) == has_key(s, h),
        forall|h: H256|
            h != (s[i]).0 && has_key(s, h) ==> value_of(s.remove(i), h) == value_of(s, h),
{
    let r = s.remove(i);
    s.remove_ensures(i);
    assert forall|a: int, b: int| 0 <= a < b < r.len() implies (r[a]).0 != (r[b]).0 by {
        let ia: int = if a < i {
            a
        } else {
            a + 1
        };
        let ib: int = if b < i {
            b
        } else {
            b + 1
        };
        assert(r[a] == s[ia]);
        assert(r[b] == s[ib]);
    }
    assert forall|k: int| 0 <= k < r.len() implies (r[k]).0 != (s[i]).0 by {
        if k < i {
            assert(r[k] == s[k]);
        } else {
            assert(r[k] == s[k + 1]);
        }
    }
    assert forall|h: H256| h != (s[i]).0 implies has_key(r, h) == has_key(s, h) by {
        if has_key(s, h) {
            let k = key_index(s, h);
            assert(0 <= k < s.len() && (s[k]).0 == h);
            if k < i {
                assert(r[k] == s[k]);
                assert(has_key(r, h));
            } else {
                assert(k != i);
                assert(r[k - 1] == s[k]);
                assert(has_key(r, h));
            }
        }
        if has_key(r, h) {
            let k = key_index(r, h);
            assert(0 <= k < r.len() && (r[k]).0 == h);
            if k < i {
                assert(r[k] == s[k]);
                assert(has_key(s, h));
            } else {
                assert(r[k] == s[k + 1]);
                assert(has_key(s, h));
            }
        }
    }
    assert forall|h: H256| h != (s[i]).0 && has_key(s, h) implies value_of(r, h) == value_of(
        s,
        h,
    ) by {
        let k = key_index(s, h);
        assert(0 <= k < s.len() && (s[k]).0 == h);
        lemma_key_at(s, k);
        assert(k != i);
        let rk: int = if k < i {
            k
        } else {
            k - 1
        };
        assert(r[rk] == s[k]);
        lemma_key_at(r, rk);
    }
}

/// Appending an entry with a fresh key keeps keys distinct, binds exactly that
/// key to the new value, and leaves every other binding in place.
pub proof fn lemma_push_fresh<V>(s: Seq<(H256, V)>, h: H256, v: V)
    requires
        distinct_keys(s),
        !has_key(s, h),
    ensures
        distinct_keys(s.push((h, v))),
        has_key(s.push((h, v)), h),
        key_index(s.push((h, v)), h) == s.len(),
        value_of(s.push((h, v)), h) == v,
        forall|h2: H256| h2 != h ==> has_key(s.push((h, v)), h2) == has_key(s, h2),
        forall|h2: H256|
            h2 != h && has_key(s, h2) ==> value_of(s.push((h, v)), h2) == value_of(s, h2),
{
    let t = s.push((h, v));
    assert forall|a: int, b: int| 0 <= a < b < t.len() implies (t[a]).0 != (t[b]).0 by {
        if b == s.len() {
            assert(t[a] == s[a]);
            assert((s[a]).0 != h);
        } else {
            assert(t[a] == s[a]);
            assert(t[b] == s[b]);
        }
    }
    assert(t[s.len() as int] == (h, v));
    assert(has_key(t, h));
    lemma_key_at(t, s.len() as int);
    assert forall|h2: H256| h2 != h implies has_key(t, h2) == has_key(s, h2) by {
        if has_key(s, h2) {
            let k = key_index(s, h2);
            assert(t[k] == s[k]);
            assert(has_key(t, h2));
        }
        if has_key(t, h2) {
            let k = key_index(t, h2);
            assert(0 <= k < t.len() && (t[k]).0 == h2);
            assert(k != s.len());
            assert(t[k] == s[k]);
            assert(has_key(s, h2));
        }
    }
    assert forall|h2: H256| h2 != h && has_key(s, h2) implies value_of(t, h2) == value_of(
        s,
        h2,
    ) by {
        let k = key_index(s, h2);
        assert(0 <= k < s.len() && (s[k]).0 == h2);
        lemma_key_at(s, k);
        assert(t[k] == s[k]);
        lemma_key_at(t, k);
    }
}

/// [`map_insert`] keeps keys distinct, binds `h` to `v`, and leaves every
/// other binding in place. It grows the sequence by at most one entry.
pub proof fn lemma_map_insert<V>(s: Seq<(H256, V)>, h: H256, v: V)
    requires
        distinct_keys(s),
    ensures
        distinct_keys(map_insert(s, h, v)),
        has_key(map_insert(s, h, v), h),
        value_of(map_insert(s, h, v), h) == v,
        forall|h2: H256| h2 != h ==> has_key(map_insert(s, h, v), h2) == has_key(s, h2),
        forall|h2: H256|
            h2 != h && has_key(s, h2) ==> value_of(map_insert(s, h, v), h2) == value_of(s, h2),
        map_insert(s, h, v).len() <= s.len() + 1,
{
    if has_key(s, h) {
        let ki = key_index(s, h);
        assert(0 <= ki < s.len() && (s[ki]).0 == h);
        lemma_remove_entry(s, ki);
        lemma_push_fresh(s.remove(ki), h, v);
    } else {
        assert(removed_key(s, h) == s);
        lemma_push_fresh(s, h, v);
    }
}

/// The model of a bounded cache after inserting `items` in order, front
/// (least recent) first, starting from the empty cache.
pub open spec fn lru_fill<V>(cap: nat, items: Seq<(H256, V)>) -> Seq<(H256, V)>
    decreases items.len(),
{
    if items.len() == 0 {
        Seq::empty()
    } else {
        lru_insert(lru_fill(cap, items.drop_last()), cap, items.last().0, items.last().1)
    }
}

/// The model of an unbounded map after inserting `items` in order on top of `s`.
pub open spec fn map_fill<V>(s: Seq<(H256, V)>, items: Seq<(H256, V)>) -> Seq<(H256, V)>
    decreases items.len(),
{
    if items.len() == 0 {
        s
    } else {
        map_insert(map_fill(s, items.drop_last()), items.last().0, items.last().1)
    }
}

/// A bounded cache holds distinct-keyed insertions in full, and in order, as
/// long as they fit the capacity.
pub proof fn lemma_lru_fill_within_capacity<V>(cap: nat, items: Seq<(H256, V)>)
    requires
        distinct_keys(items),
        items.len() <= cap,
    ensures
        lru_fill(cap, items) == items,
    decreases items.len(),
{
    if items.len() == 0 {
        assert(lru_fill(cap, items) =~= items);
    } else {
        let pre = items.drop_last();
        let e = items.last();
        assert forall|a: int, b: int| 0 <= a < b < pre.len() implies (pre[a]).0 != (pre[b]).0 by {
            assert(pre[a] == items[a]);
            assert(pre[b] == items[b]);
        }
        lemma_lru_fill_within_capacity(cap, pre);
        assert forall|k: int| 0 <= k < pre.len() implies (#[trigger] pre[k]).0 != e.0 by {
            assert(pre[k] == items[k]);
            assert((items[k]).0 != (items[items.len() - 1]).0);
        }
        assert(!has_key(pre, e.0));
        assert(lru_fill(cap, items) == pre.push(e));
        assert(pre.push(e) =~= items);
    }
}

/// Committed entries are retrievable: publishing a distinct-keyed batch that
/// fits the capacity into an empty bounded cache binds every key of the batch
/// to its node.
pub proof fn lemma_commit_retrievable<V>(cap: nat, items: Seq<(H256, V)>)
    requires
        distinct_keys(items),
        items.len() <= cap,
    ensures
        forall|j: int|
            0 <= j < items.len() ==> has_key(lru_fill(cap, items), (#[trigger] items[j]).0)
                && value_of(lru_fill(cap, items), (items[j]).0) == (items[j]).1,
{
    lemma_lru_fill_within_capacity(cap, items);
    assert forall|j: int| 0 <= j < items.len() implies has_key(
        lru_fill(cap, items),
        (#[trigger] items[j]).0,
    ) && value_of(lru_fill(cap, items), (items[j]).0) == (items[j]).1 by {
        lemma_key_at(items, j);
    }
}

/// Bounded eviction: inserting `cap + 1` distinct keys into an empty bounded
/// cache of capacity `cap >= 1` evicts exactly the first-inserted,
/// least-recently-touched entry; every later key is still present.
pub proof fn lemma_bounded_eviction<V>(cap: nat, items: Seq<(H256, V)>)
    requires
        distinct_keys(items),
        items.len() == cap + 1,
        cap >= 1,
    ensures
        lru_fill(cap, items) == items.drop_first(),
        !has_key(lru_fill(cap, items), (items[0]).0),
        forall|j: int| 1 <= j < items.len() ==> has_key(lru_fill(cap, items), (#[trigger] items[j]).0),
{
    let pre = items.drop_last();
    let e = items.last();
    assert forall|a: int, b: int| 0 <= a < b < pre.len() implies (pre[a]).0 != (pre[b]).0 by {
        assert(pre[a] == items[a]);
        assert(pre[b] == items[b]);
    }
    lemma_lru_fill_within_capacity(cap, pre);
    assert forall|k: int| 0 <= k < pre.len() implies (#[trigger] pre[k]).0 != e.0 by {
        assert(pre[k] == items[k]);
        assert((items[k]).0 != (items[items.len() - 1]).0);
    }
    assert(!has_key(pre, e.0));
    let filled = lru_fill(cap, items);
    assert(filled == pre.drop_first().push(e));
    assert(filled =~= items.drop_first());
    assert forall|k: int| 0 <= k < filled.len() implies (#[trigger] filled[k]).0 != (items[0]).0 by {
        assert(filled[k] == items[k + 1]);
        assert((items[0]).0 != (items[k + 1]).0);
    }
    assert forall|j: int| 1 <= j < items.len() implies has_key(filled, (#[trigger] items[j]).0) by {
        assert(filled[j - 1] == items[j]);
    }
}

/// The unbounded backing never evicts: after inserting any batch, every key
/// of the batch is present, and every prior binding outside the batch is kept
/// with its value.
pub proof fn lemma_unbounded_never_evicts<V>(s: Seq<(H256, V)>, items: Seq<(H256, V)>)
    requires
        distinct_keys(s),
    ensures
        distinct_keys(map_fill(s, items)),
        forall|j: int|
            0 <= j < items.len() ==> has_key(map_fill(s, items), (#[trigger] items[j]).0),
        forall|h: H256|
            has_key(s, h) && !has_key(items, h) ==> has_key(map_fill(s, items), h) && value_of(
                map_fill(s, items),
                h,
            ) == value_of(s, h),
    decreases items.len(),
{
    if items.len() == 0 {
    } else {
        let pre = items.drop_last();
        let e = items.last();
        lemma_unbounded_never_evicts(s, pre);
        let base = map_fill(s, pre);
        lemma_map_insert(base, e.0, e.1);
        assert(map_fill(s, items) == map_insert(base, e.0, e.1));
        assert forall|j: int| 0 <= j < items.len() implies has_key(
            map_fill(s, items),
            (#[trigger] items[j]).0,
        ) by {
            if j < items.len() - 1 {
                assert(pre[j] == items[j]);
                assert(has_key(base, (items[j]).0));
                if (items[j]).0 != e.0 {
                    assert(has_key(map_insert(base, e.0, e.1), (items[j]).0));
                }
            } else {
                assert(items[j] == e);
            }
        }
        assert forall|h: H256| has_key(s, h) && !has_key(items, h) implies has_key(
            map_fill(s, items),
            h,
        ) && value_of(map_fill(s, items), h) == value_of(s, h) by {
            assert(items[items.len() - 1] == e);
            assert(has_key(items, e.0));
            assert(h != e.0);
            assert forall|k: int| 0 <= k < pre.len() implies (#[trigger] pre[k]).0 != h by {
                assert(pre[k] == items[k]);
                assert((items[k]).0 != h);
            }
            assert(!has_key(pre, h));
        }
    }
}

/// Read-your-writes: staging a node under a hash not yet staged binds exactly
/// that node, so a lookup that prefers staging returns it before any commit.
/// (When the hash was already staged, first-write-wins keeps the earlier
/// node, which content-addressing determinism makes equal.)
pub proof fn lemma_read_your_writes<V>(s: Seq<(H256, V)>, h: H256, v: V)
    requires
        distinct_keys(s),
        !has_key(s, h),
    ensures
        has_key(staged_insert(s, h, v), h),
        value_of(staged_insert(s, h, v), h) == v,
{
    lemma_push_fresh(s, h, v);
}

/// Idempotent staging: staging content already staged is a no-op whatever
/// value rides along, a fresh staging grows the buffer by exactly one entry,
/// and removing the key afterwards leaves what a plain removal would.
pub proof fn lemma_staging_idempotent<V>(s: Seq<(H256, V)>, h: H256, v: V, v2: V)
    requires
        distinct_keys(s),
    ensures
        staged_insert(staged_insert(s, h, v), h, v2) == staged_insert(s, h, v),
        !has_key(s, h) ==> staged_insert(s, h, v).len() == s.len() + 1,
        has_key(s, h) ==> staged_insert(s, h, v) == s,
        removed_key(staged_insert(s, h, v), h) == removed_key(s, h),
{
    if has_key(s, h) {
    } else {
        lemma_push_fresh(s, h, v);
        let t = s.push((h, v));
        assert(has_key(t, h));
        assert(key_index(t, h) == s.len());
        assert(removed_key(t, h) == t.remove(s.len() as int));
        assert(t.remove(s.len() as int) =~= s);
        assert(removed_key(s, h) == s);
    }
}

/// A verified unbounded map from content address to shared value.
///
/// Entries sit in insertion order (refreshed entries move to the back): a
/// deliberate choice of deterministic order — first inserted, first listed by
/// [`VecMap::key_at`], and first published by a commit that drains a staging
/// map — in place of ordering by hash. No entry is ever dropped except by
/// [`VecMap::remove`] and [`VecMap::clear`].
#[derive(Clone)]
pub struct VecMap<V> {
    entries: Vec<(H256, Arc<V>)>,
}

impl<V> View for VecMap<V> {
    type V = Seq<(H256, Arc<V>)>;

    closed spec fn view(&self) -> Seq<(H256, Arc<V>)> {
        self.entries@
    }
}

impl<V> VecMap<V> {
    /// Keys are pairwise distinct.
    pub open spec fn wf(&self) -> bool {
        distinct_keys(self@)
    }

    pub fn new() -> (r: VecMap<V>)
        ensures
            r.wf(),
            r@ == Seq::<(H256, Arc<V>)>::empty(),
    {
        VecMap { entries: Vec::new() }
    }

    /// The position of the entry binding `h`, if any.
    fn position(&self, h: &H256) -> (r: Option<usize>)
        ensures
            match r {
                Some(i) => i < self@.len() && (self@[i as int]).0 == *h,
                None => !has_key(self@, *h),
            },
    {
        let n: usize = self.entries.len();
        let mut i: usize = 0;
        while i < n
            invariant
                i <= n,
                n == self@.len(),
                forall|j: int| 0 <= j < i ==> (#[trigger] self@[j]).0 != *h,
            decreases n - i,
        {
            if self.entries[i].0 == *h {
                return Some(i);
            }
            i += 1;
        }
        None
    }

    /// Point lookup; absence is an ordinary outcome, not an error.
    pub fn get(&self, h: &H256) -> (r: Option<Arc<V>>)
        requires
            self.wf(),
        ensures
            has_key(self@, *h) ==> r == Some(value_of(self@, *h)),
            !has_key(self@, *h) ==> r is None,
    {
        match self.position(h) {
            Some(i) => {
                proof {
                    lemma_key_at(self@, i as int);
                }
                Some(self.entries[i].1.clone())
            },
            None => None,
        }
    }

    /// Insert or overwrite the binding for `h`.
    pub fn insert(&mut self, h: H256, v: Arc<V>)
        requires
            old(self).wf(),
        ensures
            final(self).wf(),
            final(self)@ == map_insert(old(self)@, h, v),
    {
        let ghost s0 = self@;
        match self.position(&h) {
            Some(i) => {
                proof {
                    lemma_key_at(s0, i as int);
                }
                self.entries.remove(i);
                self.entries.push((h, v));
            },
            None => {
                self.entries.push((h, v));
                assert(removed_key(s0, h) == s0);
            },
        }
        proof {
            lemma_map_insert(s0, h, v);
        }
    }

    /// First-write-wins insert: a no-op when `h` is already bound.
    pub fn insert_if_absent(&mut self, h: H256, v: Arc<V>)
        requires
            old(self).wf(),
        ensures
            final(self).wf(),
            final(self)@ == staged_insert(old(self)@, h, v),
    {
        let ghost s0 = self@;
        match self.position(&h) {
            Some(i) => {
                proof {
                    lemma_key_at(s0, i as int);
                }
            },
            None => {
                self.entries.push((h, v));
                proof {
                    lemma_push_fresh(s0, h, v);
                }
            },
        }
    }

    /// Drop the binding for `h`, if any.
    pub fn remove(&mut self, h: &H256)
        requires
            old(self).wf(),
        ensures
            final(self).wf(),
            final(self)@ == removed_key(old(self)@, *h),
    {
        let ghost s0 = self@;
        match self.position(h) {
            Some(i) => {
                proof {
                    lemma_key_at(s0, i as int);
                    lemma_remove_entry(s0, i as int);
                }
                self.entries.remove(i);
            },
            None => {},
        }
    }

    pub fn len(&self) -> (r: usize)
        ensures
            r == self@.len(),
    {
        self.entries.len()
    }

    pub fn clear(&mut self)
        ensures
            final(self).wf(),
            final(self)@ == Seq::<(H256, Arc<V>)>::empty(),
    {
        self.entries.clear();
    }

    /// The address at position `i` (positions follow insertion order).
    pub fn key_at(&self, i: usize) -> (r: H256)
        requires
            i < self@.len(),
        ensures
            r == (self@[i as int]).0,
    {
        self.entries[i].0
    }

    /// The value at position `i`.
    pub fn value_at(&self, i: usize) -> (r: Arc<V>)
        requires
            i < self@.len(),
        ensures
            r == (self@[i as int]).1,
    {
        self.entries[i].1.clone()
    }
}

/// A verified bounded cache: least-recently-used eviction, recency refreshed
/// on both read and write, capacity fixed at construction.
#[derive(Clone)]
pub struct LruCache<V> {
    entries: Vec<(H256, Arc<V>)>,
    capacity: usize,
}

impl<V> View for LruCache<V> {
    type V = Seq<(H256, Arc<V>)>;

    closed spec fn view(&self) -> Seq<(H256, Arc<V>)> {
        self.entries@
    }
}

impl<V> LruCache<V> {
    /// The configured entry limit.
    pub closed spec fn cap(&self) -> nat {
        self.capacity as nat
    }

    /// Keys are pairwise distinct and the cache never exceeds its capacity.
    pub open spec fn wf(&self) -> bool {
        distinct_keys(self@) && self@.len() <= self.cap()
    }

    pub fn new(capacity: usize) -> (r: LruCache<V>)
        ensures
            r.wf(),
            r@ == Seq::<(H256, Arc<V>)>::empty(),
            r.cap() == capacity,
    {
        LruCache { entries: Vec::new(), capacity }
    }

    /// The position of the entry binding `h`, if any.
    fn position(&self, h: &H256) -> (r: Option<usize>)
        ensures
            match r {
                Some(i) => i < self@.len() && (self@[i as int]).0 == *h,
                None => !has_key(self@, *h),
            },
    {
        let n: usize = self.entries.len();
        let mut i: usize = 0;
        while i < n
            invariant
                i <= n,
                n == self@.len(),
                forall|j: int| 0 <= j < i ==> (#[trigger] self@[j]).0 != *h,
            decreases n - i,
        {
            if self.entries[i].0 == *h {
                return Some(i);
            }
            i += 1;
        }
        None
    }

    /// Point lookup. A hit refreshes the entry's recency, so the cache itself
    /// changes: the model moves the entry to the back.
    pub fn get(&mut self, h: &H256) -> (r: Option<Arc<V>>)
        requires
            old(self).wf(),
        ensures
            final(self).wf(),
            final(self).cap() == old(self).cap(),
            has_key(old(self)@, *h) ==> r == Some(value_of(old(self)@, *h)) && final(self)@
                == promoted(old(self)@, *h),
            !has_key(old(self)@, *h) ==> r is None && final(self)@ == old(self)@,
    {
        let ghost s0 = self@;
        match self.position(h) {
            Some(i) => {
                proof {
                    lemma_key_at(s0, i as int);
                }
                let val = self.entries[i].1.clone();
                let key = self.entries[i].0;
                self.entries.remove(i);
                self.entries.push((key, val.clone()));
                proof {
                    lemma_map_insert(s0, *h, value_of(s0, *h));
                }
                Some(val)
            },
            None => None,
        }
    }

    /// Insert or refresh the binding for `h`; at a full cache a fresh key
    /// drops the least recently used entry.
    pub fn insert(&mut self, h: H256, v: Arc<V>)
        requires
            old(self).wf(),
        ensures
            final(self).wf(),
            final(self).cap() == old(self).cap(),
            final(self)@ == lru_insert(old(self)@, old(self).cap(), h, v),
    {
        let ghost s0 = self@;
        let ghost cap0 = self.cap();
        match self.position(&h) {
            Some(i) => {
                proof {
                    lemma_key_at(s0, i as int);
                }
                self.entries.remove(i);
                self.entries.push((h, v));
                proof {
                    lemma_map_insert(s0, h, v);
                }
            },
            None => {
                if self.entries.len() < self.capacity {
                    self.entries.push((h, v));
                    proof {
                        lemma_push_fresh(s0, h, v);
                    }
                } else if self.capacity == 0 {
                    // wf bounds the cache by its capacity, so it is empty and stays so
                } else {
                    self.entries.remove(0);
                    self.entries.push((h, v));
                    proof {
                        assert(s0.remove(0) =~= s0.drop_first());
                        lemma_remove_entry(s0, 0);
                        assert(!has_key(s0.drop_first(), h)) by {
                            assert forall|k: int|
                                0 <= k < s0.drop_first().len() implies (#[trigger] s0.drop_first()[k]).0
                                != h by {
                                assert(s0.drop_first()[k] == s0[k + 1]);
                                assert((s0[k + 1]).0 != h);
                            }
                        }
                        lemma_push_fresh(s0.drop_first(), h, v);
                    }
                }
            },
        }
    }

    pub fn len(&self) -> (r: usize)
        ensures
            r == self@.len(),
    {
        self.entries.len()
    }

    /// Empty the cache; the capacity is kept.
    pub fn clear(&mut self)
        ensures
            final(self).wf(),
            final(self)@ == Seq::<(H256, Arc<V>)>::empty(),
            final(self).cap() == old(self).cap(),
    {
        self.entries.clear();
    }
}

} // verus!
