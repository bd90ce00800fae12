//! Plain value types shared by the consensus and the storage.

use vstd::prelude::*;

verus! {

/// Number indicating the current leader (the view of the consensus).
#[derive(Debug, Clone, Copy, PartialEq, Eq, Structural, Hash)]
pub struct LeaderTerm(pub u64);

impl LeaderTerm {
    /// Create a leader term with the given number.
    pub fn new(value: u64) -> (term: Self)
        ensures
            term.0 == value,
    {
        LeaderTerm(value)
    }

    /// The number of this leader term.
    pub fn value(self) -> (value: u64)
        ensures
            value == self.0,
    {
        self.0
    }

    /// The leader term `other` terms after this one.
    pub fn add(self, other: u64) -> (term: Self)
        requires
            self.0 + other <= u64::MAX,
        ensures
            term.0 == self.0 + other,
    {
        LeaderTerm(self.0 + other)
    }

    /// Advance this leader term by `other` terms.
    pub fn add_assign(&mut self, other: u64)
        requires
            old(self).0 + other <= u64::MAX,
        ensures
            final(self).0 == old(self).0 + other,
    {
        self.0 = self.0 + other;
    }
}

impl Default for LeaderTerm {
    fn default() -> (term: Self)
        ensures
            term.0 == 0,
    {
        LeaderTerm(0)
    }
}

impl From<LeaderTerm> for u64 {
    fn from(v: LeaderTerm) -> (value: u64) {
        v.0
    }
}

impl vstd::std_specs::convert::FromSpecImpl<LeaderTerm> for u64 {
    open spec fn obeys_from_spec() -> bool {
        true
    }

    open spec fn from_spec(v: LeaderTerm) -> u64 {
        v.0
    }
}

/// The number of a block, which is its height in the chain.
#[derive(Debug, Clone, Copy, PartialEq, Eq, Structural, Hash)]
pub struct BlockNumber(pub u64);

impl BlockNumber {
    /// Create a block number with the given value.
    pub fn new(value: u64) -> (number: Self)
        ensures
            number.0 == value,
    {
        BlockNumber(value)
    }

    /// The value of this block number.
    pub fn value(self) -> (value: u64)
        ensures
            value == self.0,
    {
        self.0
    }

    /// The block number `other` blocks after this one.
    pub fn add(self, other: u64) -> (number: Self)
        requires
            self.0 + other <= u64::MAX,
        ensures
            number.0 == self.0 + other,
    {
        BlockNumber(self.0 + other)
    }

    /// The block number `other` blocks before this one.
    pub fn sub(self, other: u64) -> (number: Self)
        requires
            self.0 >= other,
        ensures
            number.0 == self.0 - other,
    {
        BlockNumber(self.0 - other)
    }

    /// The big endian bytes of this block number (the key of the block on disk).
    pub fn to_be_bytes(self) -> (bytes: [u8; 8])
        ensures
            bytes@ == crate::time::be_bytes_of(self.0 as int),
    {
        crate::time::u64_to_be_bytes(self.0)
    }
}

impl Default for BlockNumber {
    fn default() -> (number: Self)
        ensures
            number.0 == 0,
    {
        BlockNumber(0)
    }
}

impl From<BlockNumber> for u64 {
    fn from(v: BlockNumber) -> (value: u64) {
        v.0
    }
}

impl vstd::std_specs::convert::FromSpecImpl<BlockNumber> for u64 {
    open spec fn obeys_from_spec() -> bool {
        true
    }

    open spec fn from_spec(v: BlockNumber) -> u64 {
        v.0
    }
}

/// Thirty-two bytes, held as four 64 bit words (the first byte is the most
/// significant byte of the first word).
#[derive(Debug, Clone, Copy, PartialEq, Eq, Structural, Hash)]
pub struct Bytes32(pub u64, pub u64, pub u64, pub u64);

/// The public key of an account (a client or an RPU).
#[derive(Debug, Clone, Copy, PartialEq, Eq, Structural, Hash)]
pub struct PeerId(pub Bytes32);

/// The hash of a block.
#[derive(Debug, Clone, Copy, PartialEq, Eq, Structural, Hash)]
pub struct BlockHash(pub Bytes32);

impl Default for BlockHash {
    fn default() -> (hash: Self)
        ensures
            hash == BlockHash(Bytes32(0, 0, 0, 0)),
    {
        BlockHash(Bytes32(0, 0, 0, 0))
    }
}

/// A signature over a message: its two halves.
#[derive(Debug, Clone, Copy, PartialEq, Eq, Structural, Hash)]
pub struct Signature(pub Bytes32, pub Bytes32);

} // verus!
