//! Boundary contracts of the node store: the store interface itself and the
//! traits of its collaborators (state database, trie, remote fetchers), plus
//! the error kinds shared across that boundary.
//!
//! Only [`NodeDB`] is implemented in this crate; the other traits specify what
//! the store expects from, or offers to, the layers around it.

use vstd::prelude::*;

use crate::hash::{H160, H256, U256};
use crate::kv::{has_key, removed_key, staged_insert, value_of};
use crate::text::{
    bytes_list_text, dec_text, h160_text, h256_list_text, h256_text, push_bytes_list, push_dec,
    push_h160, push_h256, push_h256_list,
};
use std::sync::Arc;
use vstd::string::StringExecFns;

verus! {

/// `rlp::DecoderError` carried opaquely inside [`Error::DecodeError`]: node
/// payloads are RLP-encoded and their decode failures surface through this
/// boundary, though decoding itself is the caller's concern.
#[verifier::external_type_specification]
#[verifier::external_body]
pub struct ExDecoderError(rlp::DecoderError);

/// Errors surfaced at the state-database boundary. The node store itself has
/// no fallible operation; these kinds belong to the layers that consume it.
#[derive(Debug)]
pub enum Error {
    /// A node payload failed to decode.
    DecodeError(rlp::DecoderError),
    /// Contract code for this hash is mandatory but absent.
    CodeNotFound(H256),
    /// A keyed lookup failed; the message names the key.
    WithKey(String),
    /// A remote fetch could not be carried out.
    CallRemoteFail(String),
    /// Flushing a state root failed.
    Flush(String),
}

/// State known to be missing for an account after a lookup.
#[derive(Debug, Default)]
pub struct MissingState {
    pub code: bool,
    pub account: bool,
    pub storages: Vec<H256>,
}

/// Marker for the account value type carried by a [`StateDB`]; its shape is
/// owned by the state layer above this store.
pub trait StateAccountTrait: Sized {

}

/// The account/storage state abstraction built on top of the trie. Specified
/// here only at its boundary; implementations live in the state layer.
pub trait StateDB: Sized {
    type StateAccount: StateAccountTrait;

    fn fork(&self) -> Self;

    fn suicide(&mut self, address: &H160) -> Result<(), Error>;

    fn get_state(&mut self, address: &H160, index: &H256) -> Result<H256, Error>;

    fn exist(&mut self, address: &H160) -> Result<bool, Error>;

    fn get_balance(&mut self, address: &H160) -> Result<U256, Error>;

    fn state_root(&self) -> H256;

    fn flush(&mut self) -> Result<H256, Error>;

    fn revert(&mut self, root: H256);

    fn try_get_acc(&mut self, address: &H160) -> Result<Option<Self::StateAccount>, Error>;

    fn get_code(&mut self, address: &H160) -> Result<Arc<Vec<u8>>, Error>;

    fn set_code(&mut self, address: &H160, code: Vec<u8>) -> Result<(), Error>;

    fn get_nonce(&mut self, address: &H160) -> Result<u64, Error>;

    fn set_nonce(&mut self, address: &H160, val: U256) -> Result<(), Error>;

    fn sub_balance(&mut self, address: &H160, val: &U256) -> Result<(), Error>;

    fn set_state(&mut self, address: &H160, index: &H256, value: H256) -> Result<(), Error>;

    fn add_balance(&mut self, address: &H160, val: &U256) -> Result<(), Error>;

    fn set_balance(&mut self, address: &H160, val: U256) -> Result<(), Error>;

    fn try_get_nonce(&mut self, address: &H160) -> Option<u64>;

    fn get_account_basic(&mut self, address: &H160) -> Result<(U256, u64), Error>;

    fn apply_states(&mut self, result: Vec<FetchStateResult>) -> Result<(), Error>;

    fn check_missing_state(&mut self, address: &H160, storages: &[H256]) -> Result<
        MissingState,
        Error,
    >;
}

/// The trie consumer of a [`NodeDB`]: walks and rebuilds a Merkle trie against
/// the store's get/add/commit interface.
pub trait Trie: Sized {
    type DB: NodeDB;

    fn root_hash(&self) -> H256;

    fn try_get(&self, db: &mut Self::DB, key: &[u8]) -> Option<Vec<u8>>;

    fn get(&self, db: &mut Self::DB, key: &[u8]) -> Result<Vec<u8>, String>;

    fn update(&mut self, db: &mut Self::DB, updates: Vec<(&[u8], Vec<u8>)>) -> Vec<TrieUpdate>;

    fn new_root(&self, new_root: H256) -> Self;
}

/// Outcome of one trie update: applied, or blocked on a missing node.
#[derive(Clone, Debug)]
pub enum TrieUpdate {
    Success,
    Missing(H256),
}

/// The node-store contract: content-addressed node storage with private
/// staging, cheap forking, and an eagerly shared code cache.
///
/// Lookups prefer staging over the shared cache (read-your-own-writes);
/// staged writes are invisible to other forks until [`NodeDB::commit`]
/// publishes them into the cache the forks share.
///
/// Committed state is not snapshot-isolated: a commit on one fork is
/// immediately visible to every fork sharing the cache. Only uncommitted
/// (staged) state is isolated — an intentional trade-off that keeps forking
/// O(1).
pub trait NodeDB: Sized {
    type Node;

    /// Instance invariant: constructors establish it, every operation keeps it.
    spec fn inv(&self) -> bool;

    /// The content-address function this store is built over.
    spec fn hash_of(n: Self::Node) -> H256;

    /// The uncommitted writes private to this instance, oldest first.
    spec fn staged(&self) -> Seq<(H256, Arc<Self::Node>)>;

    /// A new instance sharing this one's caches, with empty staging. O(1),
    /// no data copy: writes made through the fork are invisible to `self`
    /// (and vice versa) until a commit.
    fn fork(&self) -> (r: Self)
        requires
            self.inv(),
        ensures
            r.inv(),
            r.staged() == Seq::<(H256, Arc<Self::Node>)>::empty(),
    ;

    /// Point lookup by content address: staging first, else the shared node
    /// cache, so a staged node is always returned with exactly its staged
    /// value (read-your-own-writes), and any returned node sits under its own
    /// content address. A miss is reported as `None`, never masked.
    fn get(&self, index: &H256) -> (r: Option<Arc<Self::Node>>)
        requires
            self.inv(),
        ensures
            has_key(self.staged(), *index) ==> r == Some(value_of(self.staged(), *index)),
            r matches Some(n) ==> Self::hash_of(*n) == *index,
    ;

    /// Stage a node under its content hash; first write wins, so staging a
    /// hash already staged is a no-op. The shared caches are untouched.
    fn add_node(&mut self, node: &Arc<Self::Node>)
        requires
            old(self).inv(),
        ensures
            final (self).inv(),
            final (self).staged() == staged_insert(
                old(self).staged(),
                Self::hash_of(**node),
                *node,
            ),
    ;

    /// Read a code blob from the shared code cache; staging is untouched.
    fn get_code(&mut self, hash: &H256) -> (r: Option<Arc<Vec<u8>>>)
        requires
            old(self).inv(),
        ensures
            final (self).inv(),
            final (self).staged() == old(self).staged(),
    ;

    /// Publish a code blob under a caller-supplied hash, immediately visible
    /// to every fork sharing the cache; staging is untouched.
    fn set_code(&mut self, hash: H256, code: Vec<u8>)
        requires
            old(self).inv(),
        ensures
            final (self).inv(),
            final (self).staged() == old(self).staged(),
    ;

    /// Discard the staged node with this node's hash, if any; the shared
    /// caches are untouched.
    fn remove_staging_node(&mut self, node: &Arc<Self::Node>)
        requires
            old(self).inv(),
        ensures
            final (self).inv(),
            final (self).staged() == removed_key(old(self).staged(), Self::hash_of(**node)),
    ;

    /// Wrap a bare node in shared ownership and stage it.
    fn staging(&mut self, node: Self::Node) -> (r: Arc<Self::Node>)
        requires
            old(self).inv(),
        ensures
            final (self).inv(),
            *r == node,
            final (self).staged() == staged_insert(old(self).staged(), Self::hash_of(node), r),
    ;

    /// Publish every staged node into the shared node cache, clear staging,
    /// and return exactly the number of nodes that were staged.
    fn commit(&mut self) -> (r: usize)
        requires
            old(self).inv(),
        ensures
            final (self).inv(),
            r == old(self).staged().len(),
            final (self).staged() == Seq::<(H256, Arc<Self::Node>)>::empty(),
    ;
}

/// Remote retrieval of Merkle proofs and raw nodes, consulted by higher
/// layers when this store reports a miss.
pub trait ProofFetcher: Sized {
    fn fetch_proofs(&self, key: &[u8]) -> Result<Vec<Vec<u8>>, String>;

    fn get_nodes(&self, node: &[H256]) -> Result<Vec<Vec<u8>>, String>;
}

/// Aggregate miss-usage counter reported by a fetcher.
#[derive(Debug, Clone, Copy, PartialEq, Eq, Structural)]
pub struct AvgCounterResult {
    /// How many remote misses were counted.
    pub count: u64,
    /// Their total cost in microseconds.
    pub total_us: u64,
}

/// A request to prefetch one account's state: the account and the storage
/// slots wanted.
#[derive(Debug, Clone)]
pub struct FetchState {
    pub address: H160,
    pub storages: Vec<H256>,
}

/// The result of one prefetch: the account basics and the values of the
/// requested storage slots.
#[derive(Debug, Clone)]
pub struct FetchStateResult {
    pub address: H160,
    pub balance: U256,
    pub nonce: u64,
    pub code: Vec<u8>,
    pub storages: Vec<(H256, H256)>,
}

/// Remote account/storage retrieval for partial-state execution.
pub trait StateFetcher: ProofFetcher {
    fn with_acc(&self, address: &H160) -> Self;

    fn get_block_hash(&self, number: u64) -> Result<H256, Error>;

    fn get_code(&self, address: &H160) -> Result<Vec<u8>, Error>;

    fn get_account(&self, address: &H160) -> Result<(U256, u64, Vec<u8>), Error>;

    fn get_storage(&self, address: &H160, key: &H256) -> Result<H256, Error>;

    fn fork(&self) -> Self;

    fn get_miss_usage(&self) -> AvgCounterResult;

    fn prefetch_states(&self, list: &[FetchState], with_proof: bool) -> Result<
        Vec<FetchStateResult>,
        Error,
    >;
}

/// The fetcher used when no remote peer is available: every retrieval fails.
pub type NoStateFetcher = ();

impl ProofFetcher for NoStateFetcher {
    fn fetch_proofs(&self, key: &[u8]) -> (r: Result<Vec<Vec<u8>>, String>)
        ensures
            r matches Err(m) && m@ == "key not found for proofs: "@ + bytes_list_text(key@),
    {
        let mut m = String::from_str("key not found for proofs: ");
        push_bytes_list(&mut m, key);
        Err(m)
    }

    fn get_nodes(&self, node: &[H256]) -> (r: Result<Vec<Vec<u8>>, String>)
        ensures
            r matches Err(m) && m@ == "nodes not found: "@ + h256_list_text(node@),
    {
        let mut m = String::from_str("nodes not found: ");
        push_h256_list(&mut m, node);
        Err(m)
    }
}

impl StateFetcher for NoStateFetcher {
    fn fork(&self) -> Self {
        ()
    }

    fn get_account(&self, address: &H160) -> (r: Result<(U256, u64, Vec<u8>), Error>)
        ensures
            r matches Err(Error::WithKey(m)) && m@ == "account["@ + h160_text(*address)
                + "] not found"@,
    {
        let mut m = String::from_str("account[");
        push_h160(&mut m, address);
        m.append("] not found");
        Err(Error::WithKey(m))
    }

    fn get_block_hash(&self, number: u64) -> (r: Result<H256, Error>)
        ensures
            r matches Err(Error::WithKey(m)) && m@ == "block_hash["@ + dec_text(number)
                + "] not found"@,
    {
        let mut m = String::from_str("block_hash[");
        push_dec(&mut m, number);
        m.append("] not found");
        Err(Error::WithKey(m))
    }

    fn get_code(&self, address: &H160) -> (r: Result<Vec<u8>, Error>)
        ensures
            r matches Err(Error::WithKey(m)) && m@ == "account code["@ + h160_text(*address)
                + "] not found"@,
    {
        let mut m = String::from_str("account code[");
        push_h160(&mut m, address);
        m.append("] not found");
        Err(Error::WithKey(m))
    }

    fn get_miss_usage(&self) -> (r: AvgCounterResult)
        ensures
            r.count == 0,
            r.total_us == 0,
    {
        AvgCounterResult { count: 0, total_us: 0 }
    }

    fn get_storage(&self, address: &H160, key: &H256) -> (r: Result<H256, Error>)
        ensures
            r matches Err(Error::WithKey(m)) && m@ == "account storage["@ + h160_text(*address)
                + " "@ + h256_text(*key) + "] not found"@,
    {
        let mut m = String::from_str("account storage[");
        push_h160(&mut m, address);
        m.append(" ");
        push_h256(&mut m, key);
        m.append("] not found");
        Err(Error::WithKey(m))
    }

    fn prefetch_states(&self, _list: &[FetchState], _with_proof: bool) -> (r: Result<
        Vec<FetchStateResult>,
        Error,
    >)
        ensures
            r matches Err(Error::CallRemoteFail(m)) && m@
                == "no remote state fetcher is configured"@,
    {
        Err(Error::CallRemoteFail("no remote state fetcher is configured".to_owned()))
    }

    fn with_acc(&self, _address: &H160) -> Self {
        ()
    }
}

} // verus!
