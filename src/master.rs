use vstd::prelude::*;
use crate::chunk::{Chunk, ChunkId, ChunkView, CHUNK_SIZE};
use crate::index::{appended, FileChunkIndex};
use crate::queue::{queued, ChunkQueue, MAX_QUEUED};

verus! {

/// Where one ingestion stands: `Idle -> Splitting -> Draining -> Done`,
/// or `Splitting -> Failed`.
#[derive(Clone, Copy, Debug, PartialEq, Eq, Structural)]
pub enum Phase {
    Idle,
    Splitting,
    Draining,
    Done,
    Failed,
}

/// Why an ingestion stopped.
#[derive(Clone, Copy, Debug, PartialEq, Eq, Structural)]
pub enum IngestError {
    /// The source file does not exist.
    NotFound,
    /// The source file may not be read.
    PermissionDenied,
    /// The source ended in the middle of a read.
    UnexpectedEof,
    /// Any other failure to read the source.
    Io,
    /// The shared metadata was left by a panicking holder of its lock.
    LockPoisoned,
}

/// What one read of the source led to.
#[derive(Clone, Copy, Debug, PartialEq, Eq, Structural)]
pub enum ReadStep {
    /// A chunk with this identifier was recorded and queued.
    Emitted(ChunkId),
    /// The read returned no byte: the source is exhausted.
    Exhausted,
}

/// The coordinator in mathematical terms.
pub struct MasterView {
    pub index: Map<Seq<char>, Seq<ChunkId>>,
    pub queue: Seq<ChunkView>,
    pub phase: Phase,
    pub file: Seq<char>,
}

/// The coordinator after one read that gave `data`, with `id` as the
/// identifier of the chunk that read makes (unused for an empty read).
pub open spec fn after_read(pre: MasterView, data: Seq<u8>, id: ChunkId) -> MasterView {
    if data.len() == 0 {
        MasterView { phase: Phase::Draining, ..pre }
    } else {
        MasterView {
            index: appended(pre.index, pre.file, id),
            queue: pre.queue.push(ChunkView { token: id, data }),
            ..pre
        }
    }
}

/// Owns the file-to-chunks index and both ends of the chunk channel, and
/// drives one ingestion at a time through its phases.
pub struct Master {
    file_chunk_map: FileChunkIndex,
    chunks: ChunkQueue,
    pending: usize,
    phase: Phase,
    file_name: String,
}

impl View for Master {
    type V = MasterView;

    closed spec fn view(&self) -> MasterView {
        MasterView {
            index: self.file_chunk_map@,
            queue: queued(self.chunks),
            phase: self.phase,
            file: self.file_name@,
        }
    }
}

impl Master {
    pub closed spec fn wf(&self) -> bool {
        &&& self.file_chunk_map.wf()
        &&& self.pending == queued(self.chunks).len()
    }

    pub fn new() -> (r: Master)
        ensures
            r.wf(),
            r@.index == Map::<Seq<char>, Seq<ChunkId>>::empty(),
            r@.queue == Seq::<ChunkView>::empty(),
            r@.phase == Phase::Idle,
            r@.file == Seq::<char>::empty(),
    {
        Master {
            file_chunk_map: FileChunkIndex::new(),
            chunks: ChunkQueue::new(),
            pending: 0,
            phase: Phase::Idle,
            file_name: String::new(),
        }
    }

    /// Starts the ingestion of the file called `file_name`; the chunks of an
    /// earlier ingestion must all have been drained first.
    pub fn begin(&mut self, file_name: String)
        requires
            old(self).wf(),
            !(old(self)@.phase is Splitting),
            !(old(self)@.phase is Draining),
            old(self)@.queue.len() == 0,
        ensures
            final(self).wf(),
            final(self)@ == (MasterView {
                phase: Phase::Splitting,
                file: file_name@,
                ..old(self)@
            }),
    {
        self.file_name = file_name;
        self.phase = Phase::Splitting;
    }

    /// Takes the result of one read of the source: `buf` holds the `n`
    /// bytes read in its first `n` places, and a read asks for at most
    /// `CHUNK_SIZE` bytes. No byte read: the source is exhausted and
    /// draining starts. Otherwise the first `n` bytes become a chunk under a
    /// fresh identifier, which is recorded for the file and then queued.
    pub fn accept_read(&mut self, buf: Vec<u8>, n: usize) -> (r: ReadStep)
        requires
            old(self).wf(),
            old(self)@.phase is Splitting,
            n <= buf.len(),
            n <= CHUNK_SIZE,
            old(self)@.queue.len() < MAX_QUEUED,
        ensures
            final(self).wf(),
            (r == ReadStep::Exhausted) == (n == 0),
            match r {
                ReadStep::Emitted(id) => final(self)@ == after_read(
                    old(self)@,
                    buf@.subrange(0, n as int),
                    id,
                ),
                ReadStep::Exhausted => final(self)@ == after_read(
                    old(self)@,
                    Seq::empty(),
                    ChunkId { value: 0 },
                ),
            },
    {
        if n == 0 {
            self.phase = Phase::Draining;
            return ReadStep::Exhausted;
        }
        let mut data = buf;
        data.truncate(n);
        let token = ChunkId::generate();
        self.file_chunk_map.record(&self.file_name, token);
        let chunk = Chunk::new(token, data);
        self.chunks.send(chunk);
        self.pending = self.pending + 1;
        ReadStep::Emitted(token)
    }

    /// Ends the ingestion early, because reading the source failed or the
    /// caller cancelled it; what was already recorded and queued is kept.
    pub fn fail(&mut self)
        requires
            old(self).wf(),
            old(self)@.phase is Splitting,
        ensures
            final(self).wf(),
            final(self)@ == (MasterView { phase: Phase::Failed, ..old(self)@ }),
    {
        self.phase = Phase::Failed;
    }

    /// The phase once nothing is left to drain: a finished split is done,
    /// a failed one stays failed.
    pub open spec fn drained_phase(p: Phase) -> Phase {
        if p is Draining {
            Phase::Done
        } else {
            p
        }
    }

    /// Hands out the oldest queued chunk. Once none is left, a finished
    /// split is done; after a failure the chunks produced before it can be
    /// drained the same way.
    pub fn drain_next(&mut self) -> (r: Option<Chunk>)
        requires
            old(self).wf(),
            old(self)@.phase is Draining || old(self)@.phase is Failed,
        ensures
            final(self).wf(),
            old(self)@.queue.len() == 0 ==> r is None && final(self)@ == (MasterView {
                phase: Self::drained_phase(old(self)@.phase),
                ..old(self)@
            }),
            old(self)@.queue.len() > 0 ==> r is Some && r->0@ == old(self)@.queue[0]
                && final(self)@ == (MasterView { queue: old(self)@.queue.drop_first(), ..old(self)@ }),
    {
        match self.chunks.receive() {
            Some(c) => {
                self.pending = self.pending - 1;
                Some(c)
            },
            None => {
                if self.phase == Phase::Draining {
                    self.phase = Phase::Done;
                }
                None
            },
        }
    }

    /// Hands out every queued chunk, oldest first; a finished split is then
    /// done, a failed one stays failed.
    pub fn drain(&mut self) -> (r: Vec<Chunk>)
        requires
            old(self).wf(),
            old(self)@.phase is Draining || old(self)@.phase is Failed,
        ensures
            final(self).wf(),
            r@.len() == old(self)@.queue.len(),
            forall|i: int| 0 <= i < r@.len() ==> #[trigger] r@[i]@ == old(self)@.queue[i],
            final(self)@ == (MasterView {
                queue: Seq::empty(),
                phase: Self::drained_phase(old(self)@.phase),
                ..old(self)@
            }),
    {
        let ghost q0 = self@.queue;
        let mut out: Vec<Chunk> = Vec::new();
        while self.pending > 0
            invariant
                self.wf(),
                self@.phase == old(self)@.phase,
                self@.phase is Draining || self@.phase is Failed,
                self@.index == old(self)@.index,
                self@.file == old(self)@.file,
                out@.len() + self@.queue.len() == q0.len(),
                forall|i: int| 0 <= i < out@.len() ==> #[trigger] out@[i]@ == q0[i],
                forall|i: int|
                    0 <= i < self@.queue.len() ==> #[trigger] self@.queue[i] == q0[out@.len() + i],
            decreases self@.queue.len(),
        {
            match self.drain_next() {
                Some(c) => out.push(c),
                None => {},
            }
        }
        self.drain_next();
        assert(self@.queue =~= Seq::<ChunkView>::empty());
        out
    }

    /// The identifiers recorded for `name`, in order; `None` when the name
    /// was never recorded.
    pub fn lookup(&self, name: &String) -> (r: Option<Vec<ChunkId>>)
        requires
            self.wf(),
        ensures
            match r {
                None => !self@.index.contains_key(name@),
                Some(v) => self@.index.contains_key(name@) && v@ == self@.index[name@],
            },
    {
        self.file_chunk_map.lookup(name)
    }

    pub fn phase(&self) -> (r: Phase)
        ensures
            r == self@.phase,
    {
        self.phase
    }

    /// How many chunks wait in the channel.
    pub fn pending(&self) -> (r: usize)
        requires
            self.wf(),
        ensures
            r == self@.queue.len(),
    {
        self.pending
    }

    pub fn file_name(&self) -> (r: &String)
        ensures
            r@ == self@.file,
    {
        &self.file_name
    }
}

} // verus!
