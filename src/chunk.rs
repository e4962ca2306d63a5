use vstd::prelude::*;

verus! {

/// The most bytes a single chunk holds: 64 MiB.
pub const CHUNK_SIZE: usize = 64 * 1024 * 1024;

/// An opaque chunk identifier: the 128 bits of a random (version 4) UUID.
#[derive(Clone, Copy, Debug, PartialEq, Eq, Structural)]
pub struct ChunkId {
    pub value: u128,
}

/// Relies on `uuid::Uuid::new_v4` for a random identifier, read back through
/// `Uuid::as_u128`; `new_v4` masks in the version nibble (4) and the RFC 4122
/// variant bits (`10`), and nothing else of the value is known.
#[verifier::external_body]
fn random_uuid_bits() -> (r: u128)
    ensures
        (r >> 76u128) & 0xfu128 == 4u128,
        (r >> 62u128) & 0x3u128 == 2u128,
{
    uuid::Uuid::new_v4().as_u128()
}

impl ChunkId {
    /// A fresh identifier drawn from the random UUID space; uniqueness is
    /// a matter of probability, not of proof.
    pub fn generate() -> (r: ChunkId)
        ensures
            (r.value >> 76u128) & 0xfu128 == 4u128,
            (r.value >> 62u128) & 0x3u128 == 2u128,
    {
        ChunkId { value: random_uuid_bits() }
    }

    pub fn from_u128(value: u128) -> (r: ChunkId)
        ensures
            r.value == value,
    {
        ChunkId { value }
    }

    pub fn as_u128(&self) -> (r: u128)
        ensures
            r == self.value,
    {
        self.value
    }
}

/// What a chunk is, mathematically: its identifier and its bytes.
pub struct ChunkView {
    pub token: ChunkId,
    pub data: Seq<u8>,
}

/// A contiguous slice of a source file, tagged with its identifier.
#[derive(Debug)]
pub struct Chunk {
    token: ChunkId,
    data: Vec<u8>,
}

impl View for Chunk {
    type V = ChunkView;

    closed spec fn view(&self) -> ChunkView {
        ChunkView { token: self.token, data: self.data@ }
    }
}

impl Chunk {
    pub fn new(token: ChunkId, data: Vec<u8>) -> (r: Chunk)
        ensures
            r@ == (ChunkView { token, data: data@ }),
    {
        Chunk { token, data }
    }

    pub fn token(&self) -> (r: ChunkId)
        ensures
            r == self@.token,
    {
        self.token
    }

    pub fn data(&self) -> (r: &Vec<u8>)
        ensures
            r@ == self@.data,
    {
        &self.data
    }

    pub fn len(&self) -> (r: usize)
        ensures
            r == self@.data.len(),
    {
        self.data.len()
    }

    /// Gives up the chunk's bytes.
    pub fn into_data(self) -> (r: Vec<u8>)
        ensures
            r@ == self@.data,
    {
        self.data
    }
}

} // verus!
