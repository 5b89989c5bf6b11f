//! Fixed-width word types used as content addresses and account keys.
//!
//! A content address is a 256-bit word, held as four 64-bit limbs so that
//! equality is plain structural equality on integers.

use vstd::prelude::*;

verus! {

/// A 256-bit word: the content address of a trie node or a code blob.
#[derive(PartialEq, Eq, Structural, Clone, Copy, Debug, Hash)]
pub struct H256 {
    pub x0: u64,
    pub x1: u64,
    pub x2: u64,
    pub x3: u64,
}

impl H256 {
    pub fn new(x0: u64, x1: u64, x2: u64, x3: u64) -> (r: H256)
        ensures
            r == (H256 { x0, x1, x2, x3 }),
    {
        H256 { x0, x1, x2, x3 }
    }

    /// The zero word, conventionally the address of an absent node.
    pub fn zero() -> (r: H256)
        ensures
            r == (H256 { x0: 0u64, x1: 0u64, x2: 0u64, x3: 0u64 }),
    {
        H256 { x0: 0, x1: 0, x2: 0, x3: 0 }
    }
}

/// A 160-bit word: an account address.
#[derive(PartialEq, Eq, Structural, Clone, Copy, Debug, Hash)]
pub struct H160 {
    pub x0: u64,
    pub x1: u64,
    pub x2: u32,
}

/// A 256-bit unsigned quantity (balances, nonce-sized values), little-endian limbs.
#[derive(PartialEq, Eq, Structural, Clone, Copy, Debug)]
pub struct U256 {
    pub limb0: u64,
    pub limb1: u64,
    pub limb2: u64,
    pub limb3: u64,
}

impl U256 {
    /// The quantity as a mathematical integer.
    pub open spec fn as_nat(self) -> nat {
        self.limb0 as nat + self.limb1 as nat * 0x1_0000_0000_0000_0000 + self.limb2 as nat
            * 0x1_0000_0000_0000_0000_0000_0000_0000_0000 + self.limb3 as nat
            * 0x1_0000_0000_0000_0000_0000_0000_0000_0000_0000_0000_0000_0000
    }

    pub fn from_u64(v: u64) -> (r: U256)
        ensures
            r.as_nat() == v,
    {
        U256 { limb0: v, limb1: 0, limb2: 0, limb3: 0 }
    }
}

} // verus!
