use std::sync::Arc;

use node_store::hash::{H160, H256, U256};
use node_store::kv::{LruCache, VecMap};
use node_store::mem_store::{BytesHasher, Hasher};
use node_store::types::{
    AvgCounterResult, Error, MissingState, NoStateFetcher, ProofFetcher, StateFetcher, TrieUpdate,
};

#[test]
fn hasher_is_deterministic_and_content_based() {
    let a = vec![1u8, 2, 3];
    let b = vec![1u8, 2, 3];
    let c = vec![1u8, 2, 4];
    assert_eq!(BytesHasher::hash(&a), BytesHasher::hash(&b));
    assert_ne!(BytesHasher::hash(&a), BytesHasher::hash(&c));
}

#[test]
fn hasher_exact_values() {
    // the fold seed for the empty byte string, length zero
    assert_eq!(BytesHasher::hash(&vec![]), H256::new(0xcbf29ce484222325, 0, 0, 0));
    // one folding step: seed * prime + 1, wrapping at 64 bits, length one
    assert_eq!(BytesHasher::hash(&vec![1u8]), H256::new(0xaf63bd4c8601b7e0, 1, 0, 0));
}

#[test]
fn h256_equality_is_structural() {
    assert_eq!(H256::new(1, 2, 3, 4), H256::new(1, 2, 3, 4));
    assert_ne!(H256::new(1, 2, 3, 4), H256::new(1, 2, 3, 5));
    assert_eq!(H256::zero(), H256::new(0, 0, 0, 0));
}

#[test]
fn u256_from_u64_holds_the_value() {
    let v = U256::from_u64(77);
    assert_eq!(v.limb0, 77);
    assert_eq!(v.limb1, 0);
}

#[test]
fn lru_cache_overwrite_and_capacity() {
    let mut cache: LruCache<Vec<u8>> = LruCache::new(2);
    let h1 = H256::new(1, 0, 0, 0);
    let h2 = H256::new(2, 0, 0, 0);
    let h3 = H256::new(3, 0, 0, 0);
    cache.insert(h1, Arc::new(vec![1]));
    cache.insert(h2, Arc::new(vec![2]));
    // overwriting a present key evicts nothing
    cache.insert(h1, Arc::new(vec![9]));
    assert_eq!(cache.len(), 2);
    assert_eq!(cache.get(&h1), Some(Arc::new(vec![9])));
    // h2 is now the least recently used entry and falls out
    cache.insert(h3, Arc::new(vec![3]));
    assert_eq!(cache.get(&h2), None);
    assert_eq!(cache.len(), 2);
}

#[test]
fn lru_cache_capacity_zero_holds_nothing() {
    let mut cache: LruCache<Vec<u8>> = LruCache::new(0);
    let h = H256::new(1, 1, 1, 1);
    cache.insert(h, Arc::new(vec![1]));
    assert_eq!(cache.get(&h), None);
    assert_eq!(cache.len(), 0);
}

#[test]
fn vec_map_first_write_wins_and_remove() {
    let mut m: VecMap<Vec<u8>> = VecMap::new();
    let h = H256::new(4, 0, 0, 0);
    m.insert_if_absent(h, Arc::new(vec![1]));
    m.insert_if_absent(h, Arc::new(vec![2]));
    assert_eq!(m.len(), 1);
    assert_eq!(m.get(&h), Some(Arc::new(vec![1])));
    // a plain insert overwrites
    m.insert(h, Arc::new(vec![3]));
    assert_eq!(m.get(&h), Some(Arc::new(vec![3])));
    m.remove(&h);
    assert_eq!(m.get(&h), None);
    assert_eq!(m.len(), 0);
}

#[test]
fn vec_map_clear_and_order() {
    let mut m: VecMap<Vec<u8>> = VecMap::new();
    m.insert(H256::new(1, 0, 0, 0), Arc::new(vec![1]));
    m.insert(H256::new(2, 0, 0, 0), Arc::new(vec![2]));
    assert_eq!(m.key_at(0), H256::new(1, 0, 0, 0));
    assert_eq!(m.value_at(1), Arc::new(vec![2]));
    m.clear();
    assert_eq!(m.len(), 0);
}

#[test]
fn no_state_fetcher_fails_every_retrieval() {
    let f: NoStateFetcher = ();
    let addr = H160 { x0: 1, x1: 2, x2: 3 };
    // 0x, then the three limbs of the address: 16 + 16 + 8 hex digits
    let addr_text = format!("0x{:016x}{:016x}{:08x}", 1, 2, 3);
    let zero_hash_text = format!("0x{}", "0".repeat(64));
    assert_eq!(f.fetch_proofs(&[1, 2]).unwrap_err(), "key not found for proofs: [1, 2]");
    assert_eq!(f.fetch_proofs(&[]).unwrap_err(), "key not found for proofs: []");
    assert_eq!(
        f.get_nodes(&[H256::zero()]).unwrap_err(),
        format!("nodes not found: [{}]", zero_hash_text)
    );
    assert!(
        matches!(f.get_account(&addr), Err(Error::WithKey(m)) if m == format!("account[{}] not found", addr_text))
    );
    assert!(matches!(f.get_block_hash(7), Err(Error::WithKey(m)) if m == "block_hash[7] not found"));
    assert!(matches!(f.get_block_hash(540), Err(Error::WithKey(m)) if m == "block_hash[540] not found"));
    assert!(
        matches!(StateFetcher::get_code(&f, &addr), Err(Error::WithKey(m)) if m == format!("account code[{}] not found", addr_text))
    );
    assert!(
        matches!(f.get_storage(&addr, &H256::zero()), Err(Error::WithKey(m)) if m == format!("account storage[{} {}] not found", addr_text, zero_hash_text))
    );
    assert!(
        matches!(f.prefetch_states(&[], false), Err(Error::CallRemoteFail(m)) if m == "no remote state fetcher is configured")
    );
    assert_eq!(
        f.get_nodes(&[H256::new(0, 0, 0, 0xab), H256::new(1, 0, 0, 0)]).unwrap_err(),
        format!(
            "nodes not found: [0x{}ab, 0x{:016x}{}]",
            "0".repeat(62),
            1,
            "0".repeat(48)
        )
    );
    assert_eq!(f.get_miss_usage(), AvgCounterResult { count: 0, total_us: 0 });
    // forking the no-op fetcher yields the no-op fetcher
    let g = StateFetcher::fork(&f);
    assert!(g.fetch_proofs(&[]).is_err());
    let h = f.with_acc(&addr);
    assert!(h.get_nodes(&[]).is_err());
}

#[test]
fn error_kinds_carry_their_payloads() {
    let e1 = Error::DecodeError(rlp::DecoderError::RlpIsTooShort);
    assert!(matches!(e1, Error::DecodeError(rlp::DecoderError::RlpIsTooShort)));
    let e2 = Error::CodeNotFound(H256::new(1, 2, 3, 4));
    assert!(matches!(e2, Error::CodeNotFound(h) if h == H256::new(1, 2, 3, 4)));
    let e3 = Error::Flush("flush failed".to_owned());
    assert!(matches!(e3, Error::Flush(msg) if msg == "flush failed"));
}

#[test]
fn boundary_value_types_construct() {
    let missing = MissingState::default();
    assert!(!missing.code && !missing.account && missing.storages.is_empty());
    let upd = TrieUpdate::Missing(H256::zero());
    assert!(matches!(upd, TrieUpdate::Missing(h) if h == H256::zero()));
    assert!(matches!(TrieUpdate::Success, TrieUpdate::Success));
}
