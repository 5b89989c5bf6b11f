use std::sync::Arc;

use node_store::hash::H256;
use node_store::mem_store::{BTreeStore, BytesHasher, Hasher, LruMemStore, MemStore};
use node_store::types::NodeDB;

type Bounded = LruMemStore<Vec<u8>, BytesHasher>;
type Unbounded = BTreeStore<Vec<u8>, BytesHasher>;

fn node(tag: u8) -> Arc<Vec<u8>> {
    Arc::new(vec![tag, tag.wrapping_add(1), tag.wrapping_add(2)])
}

fn hash_of(n: &Arc<Vec<u8>>) -> H256 {
    BytesHasher::hash(n)
}

#[test]
fn content_addressing_before_and_after_commit() {
    let mut store = Bounded::new(16);
    let n = node(1);
    let h = hash_of(&n);
    store.add_node(&n);
    // served from staging before any commit
    assert_eq!(store.get(&h), Some(n.clone()));
    store.commit();
    // staging is now empty; served from the shared cache
    assert_eq!(store.get(&h), Some(n));
}

#[test]
fn read_your_writes_without_commit() {
    let mut store = Bounded::new(4);
    let n = node(7);
    let h = hash_of(&n);
    store.add_node(&n);
    assert_eq!(store.get(&h), Some(n));
}

#[test]
fn fork_isolates_uncommitted_writes() {
    let mut x = Bounded::new(8);
    let y = x.fork();
    let n = node(3);
    let h = hash_of(&n);
    x.add_node(&n);
    // X sees its own staged write, Y does not
    assert_eq!(x.get(&h), Some(n));
    assert_eq!(y.get(&h), None);
}

#[test]
fn commit_publishes_to_sibling_forks() {
    let mut x = Bounded::new(8);
    let y = x.fork();
    let n = node(4);
    let h = hash_of(&n);
    x.add_node(&n);
    assert_eq!(y.get(&h), None);
    x.commit();
    assert_eq!(y.get(&h), Some(n));
}

#[test]
fn commit_returns_staged_count_and_clears() {
    let mut store = Bounded::new(8);
    store.add_node(&node(1));
    store.add_node(&node(2));
    store.add_node(&node(3));
    assert_eq!(store.commit(), 3);
    // staging is empty immediately after
    assert_eq!(store.commit(), 0);
}

#[test]
fn staging_is_idempotent() {
    let mut store = Bounded::new(8);
    let n = node(9);
    let same_content = Arc::new(vec![9, 10, 11]);
    store.add_node(&n);
    store.add_node(&same_content);
    // one entry despite two stagings of the same content
    assert_eq!(store.commit(), 1);
}

#[test]
fn remove_after_duplicate_staging_leaves_nothing() {
    let mut store = Bounded::new(8);
    let n = node(9);
    store.add_node(&n);
    store.add_node(&n);
    store.remove_staging_node(&n);
    assert_eq!(store.get(&hash_of(&n)), None);
    assert_eq!(store.commit(), 0);
}

#[test]
fn remove_staging_node_discards_speculative_write() {
    let mut store = Bounded::new(8);
    let n = node(5);
    let h = hash_of(&n);
    store.add_node(&n);
    store.remove_staging_node(&n);
    assert_eq!(store.get(&h), None);
    // removing again is a no-op
    store.remove_staging_node(&n);
    assert_eq!(store.commit(), 0);
}

#[test]
fn staging_wraps_and_stages() {
    let mut store = Bounded::new(8);
    let wrapped = store.staging(vec![42, 43, 44]);
    assert_eq!(*wrapped, vec![42, 43, 44]);
    let h = hash_of(&wrapped);
    assert_eq!(store.get(&h), Some(wrapped));
}

#[test]
fn bounded_eviction_of_least_recently_used() {
    // capacity 3: committing 4 distinct nodes evicts exactly the first
    let mut store = Bounded::new(3);
    let nodes: Vec<Arc<Vec<u8>>> = (10..14).map(node).collect();
    for n in &nodes {
        store.add_node(n);
    }
    assert_eq!(store.commit(), 4);
    assert_eq!(store.get(&hash_of(&nodes[0])), None);
    for n in &nodes[1..] {
        assert_eq!(store.get(&hash_of(n)), Some(n.clone()));
    }
}

#[test]
fn lru_read_refreshes_recency() {
    let mut store = Bounded::new(2);
    let a = node(20);
    let b = node(21);
    let c = node(22);
    store.add_node(&a);
    store.commit();
    store.add_node(&b);
    store.commit();
    // touch a so that b becomes the least recently used entry
    assert_eq!(store.get(&hash_of(&a)), Some(a.clone()));
    store.add_node(&c);
    store.commit();
    assert_eq!(store.get(&hash_of(&b)), None);
    assert_eq!(store.get(&hash_of(&a)), Some(a));
    assert_eq!(store.get(&hash_of(&c)), Some(c));
}

#[test]
fn bounded_two_capacity_scenario() {
    let mut store = Bounded::new(2);
    let a = node(30);
    let b = node(31);
    let c = node(32);
    store.add_node(&a);
    store.commit();
    store.add_node(&b);
    store.commit();
    store.add_node(&c);
    store.commit();
    assert_eq!(store.get(&hash_of(&a)), None);
    assert_eq!(store.get(&hash_of(&b)), Some(b));
    assert_eq!(store.get(&hash_of(&c)), Some(c));
}

#[test]
fn unbounded_store_never_evicts() {
    let mut store = Unbounded::new();
    let nodes: Vec<Arc<Vec<u8>>> = (0..100).map(|i| Arc::new(vec![i as u8, (i / 7) as u8])).collect();
    for n in &nodes {
        store.add_node(n);
    }
    assert_eq!(store.commit(), 100);
    for n in &nodes {
        assert_eq!(store.get(&hash_of(n)), Some(n.clone()));
    }
}

#[test]
fn unbounded_store_forks_share_commits() {
    let mut x = Unbounded::new();
    let y = x.fork();
    let n = node(50);
    let h = hash_of(&n);
    x.add_node(&n);
    assert_eq!(y.get(&h), None);
    x.commit();
    assert_eq!(y.get(&h), Some(n));
}

#[test]
fn code_cache_is_shared_without_commit() {
    let mut x = Bounded::new(4);
    let mut y = x.fork();
    let h = H256::new(1, 2, 3, 4);
    x.set_code(h, vec![0xaa, 0xbb]);
    // code writes publish eagerly: visible to the sibling at once
    assert_eq!(y.get_code(&h), Some(Arc::new(vec![0xaa, 0xbb])));
}

#[test]
fn code_cache_miss_is_none() {
    let mut store = Bounded::new(4);
    assert_eq!(store.get_code(&H256::new(9, 9, 9, 9)), None);
}

#[test]
fn code_and_node_caches_evict_independently() {
    let mut store = Bounded::new(2);
    let c1 = H256::new(1, 0, 0, 0);
    let c2 = H256::new(2, 0, 0, 0);
    store.set_code(c1, vec![1]);
    store.set_code(c2, vec![2]);
    // overflow the node cache: three distinct nodes into capacity two
    let nodes: Vec<Arc<Vec<u8>>> = (60..63).map(node).collect();
    for n in &nodes {
        store.add_node(n);
    }
    store.commit();
    assert_eq!(store.get(&hash_of(&nodes[0])), None);
    // both code entries survive the node-cache eviction
    assert_eq!(store.get_code(&c1), Some(Arc::new(vec![1])));
    assert_eq!(store.get_code(&c2), Some(Arc::new(vec![2])));

    // now overflow the code cache; committed nodes are untouched
    store.set_code(H256::new(3, 0, 0, 0), vec![3]);
    store.set_code(H256::new(4, 0, 0, 0), vec![4]);
    assert_eq!(store.get(&hash_of(&nodes[1])), Some(nodes[1].clone()));
    assert_eq!(store.get(&hash_of(&nodes[2])), Some(nodes[2].clone()));
}

#[test]
fn clear_empties_node_cache_only() {
    let mut store = Bounded::new(4);
    let n = node(70);
    let h = hash_of(&n);
    let ch = H256::new(5, 5, 5, 5);
    store.add_node(&n);
    store.commit();
    store.set_code(ch, vec![7]);
    store.clear();
    assert_eq!(store.get(&h), None);
    assert_eq!(store.get_code(&ch), Some(Arc::new(vec![7])));
}

#[test]
fn unbounded_clear_empties_node_cache_only() {
    let mut store = Unbounded::new();
    let n = node(71);
    let h = hash_of(&n);
    let ch = H256::new(6, 6, 6, 6);
    store.add_node(&n);
    store.commit();
    store.set_code(ch, vec![8]);
    store.clear();
    assert_eq!(store.get(&h), None);
    assert_eq!(store.get_code(&ch), Some(Arc::new(vec![8])));
}

#[test]
fn default_backing_is_the_bounded_store() {
    let mut store: MemStore<Vec<u8>, BytesHasher> = MemStore::new(2);
    let n = node(80);
    store.add_node(&n);
    assert_eq!(store.commit(), 1);
    assert_eq!(store.get(&hash_of(&n)), Some(n));
}

#[test]
fn clone_snapshots_staging_and_shares_caches() {
    let mut x = Bounded::new(4);
    let staged = node(90);
    x.add_node(&staged);
    // a clone copies the staging buffer, unlike fork, and shares the caches
    let mut y = x.clone();
    assert_eq!(y.get(&hash_of(&staged)), Some(staged.clone()));
    let committed = node(91);
    y.add_node(&committed);
    y.commit();
    assert_eq!(x.get(&hash_of(&committed)), Some(committed));

    let mut u = Unbounded::new();
    let n = node(92);
    u.add_node(&n);
    let v = u.clone();
    assert_eq!(v.get(&hash_of(&n)), Some(n));
}

#[test]
fn overwriting_code_updates_the_blob() {
    let mut store = Unbounded::new();
    let h = H256::new(8, 8, 8, 8);
    store.set_code(h, vec![1, 2]);
    store.set_code(h, vec![3, 4]);
    assert_eq!(store.get_code(&h), Some(Arc::new(vec![3, 4])));
}
