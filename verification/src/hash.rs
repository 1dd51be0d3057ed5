//! 256-bit hashes, as they identify blocks.

use vstd::prelude::*;

verus! {

/// The field element that `starknet_core` makes of the 32 bytes of a hash,
/// as its 32 big-endian bytes; nothing where it refuses them.
pub uninterp spec fn felt_of_hash(bytes: Seq<u8>) -> Option<Seq<u8>>;

/// An element of the Stark field, held as the 32 big-endian bytes in which
/// `starknet_core` writes it out.
#[derive(Clone, Copy, Debug, PartialEq, Eq)]
pub struct Felt {
    bytes: [u8; 32],
}

impl View for Felt {
    type V = Seq<u8>;

    closed spec fn view(&self) -> Seq<u8> {
        self.bytes@
    }
}

impl Felt {
    /// The element written out in big-endian bytes.
    pub fn to_bytes_be(&self) -> (bytes: [u8; 32])
        ensures
            bytes@ == self@,
    {
        self.bytes
    }
}

/// A 256-bit hash.
#[derive(Clone, Copy, Debug, PartialEq, Eq, PartialOrd, Ord, Hash)]
pub struct Hash {
    bytes: [u8; 32],
}

impl View for Hash {
    type V = Seq<u8>;

    closed spec fn view(&self) -> Seq<u8> {
        self.bytes@
    }
}

/// Calls `Felt::try_from(Hash256)` of `starknet_core` on the hash made of
/// the bytes by `Hash256::from_bytes`, and writes the element out with
/// `Felt::to_bytes_be`. The contract claims only that what comes back is a
/// function of the bytes, named `felt_of_hash`.
#[verifier::external_body]
fn felt_from_hash_bytes(bytes: &[u8; 32]) -> (felt: Option<[u8; 32]>)
    ensures
        match felt {
            Some(out) => felt_of_hash(bytes@) == Some(out@),
            None => felt_of_hash(bytes@) is None,
        },
{
    let hash = starknet_core::types::Hash256::from_bytes(*bytes);
    match starknet_core::types::Felt::try_from(hash) {
        Ok(felt) => Some(felt.to_bytes_be()),
        Err(_) => None,
    }
}

impl Hash {
    /// The hash with the given bytes.
    pub fn new(bytes: [u8; 32]) -> (hash: Hash)
        ensures
            hash@ == bytes@,
    {
        Hash { bytes }
    }

    /// The bytes of the hash.
    pub fn as_bytes(&self) -> (bytes: &[u8; 32])
        ensures
            bytes@ == self@,
    {
        &self.bytes
    }

    /// The hash as an element of the Stark field, where it is one.
    pub fn as_felt(&self) -> (felt: Option<Felt>)
        ensures
            match felt {
                Some(f) => felt_of_hash(self@) == Some(f@),
                None => felt_of_hash(self@) is None,
            },
    {
        match felt_from_hash_bytes(&self.bytes) {
            Some(bytes) => Some(Felt { bytes }),
            None => None,
        }
    }

    /// The number of bytes of a hash: 32.
    pub fn len(&self) -> (n: usize)
        ensures
            n == 32,
            n == self@.len(),
    {
        self.bytes.len()
    }

    /// The identifier of a hash taken as a value: the hash itself.
    pub fn id(&self) -> (id: Hash)
        ensures
            id@ == self@,
    {
        *self
    }
}

} // verus!
