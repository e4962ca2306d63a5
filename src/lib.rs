//! Coordinator of a chunked storage layer: files are split into fixed-size
//! chunks, each chunk gets a random identifier, the ordered identifiers of a
//! file are kept in an index, and the chunks are handed to a dispatcher
//! through a FIFO queue.
pub mod chunk;
pub mod index;
pub mod laws;
pub mod master;
pub mod queue;

pub use chunk::{Chunk, ChunkId};
pub use index::FileChunkIndex;
pub use master::{IngestError, Master, Phase, ReadStep};
pub use queue::ChunkQueue;
