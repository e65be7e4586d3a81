//! Addresses and account references.
//!
//! An address is an opaque 32-byte identifier (a consumer, an executor, the
//! governance authority, or a token mint). It is held as four 64-bit words in
//! little-endian order so that verified code can compare and serialize it as
//! plain integers.

use vstd::prelude::*;

verus! {

/// An opaque 32-byte identifier, held as four little-endian 64-bit words.
#[derive(Clone, Copy, Debug, PartialEq, Eq, Structural)]
pub struct Address {
    pub w0: u64,
    pub w1: u64,
    pub w2: u64,
    pub w3: u64,
}

impl Address {
    /// Builds an address whose first word is `n` and whose other words are 0;
    /// convenient for naming distinct parties.
    pub fn from_u64(n: u64) -> (r: Address)
        ensures
            r == (Address { w0: n, w1: 0u64, w2: 0u64, w3: 0u64 }),
    {
        Address { w0: n, w1: 0, w2: 0, w3: 0 }
    }
}

/// One entry of the positional account list a handler receives: the account's
/// address and whether that account signed the instruction.
#[derive(Clone, Copy, Debug, PartialEq, Eq, Structural)]
pub struct AccountRef {
    pub key: Address,
    pub is_signer: bool,
}

} // verus!
