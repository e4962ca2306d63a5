use vstd::prelude::*;
use futures::channel::mpsc::{UnboundedReceiver, UnboundedSender};
use crate::chunk::{Chunk, ChunkView};

verus! {

/// The most messages an unbounded channel of `futures` can hold: sending
/// one more panics ("buffer space exhausted").
pub const MAX_QUEUED: usize = usize::MAX / 2;

/// An ordered, unbounded chunk channel. Both of its ends are held here, so
/// that no other party can close it or send on it, and what it holds is
/// well defined.
#[verifier::external_body]
pub struct ChunkQueue {
    sender: UnboundedSender<Chunk>,
    receiver: UnboundedReceiver<Chunk>,
}

/// The chunks waiting in the channel, oldest first.
pub uninterp spec fn queued(q: ChunkQueue) -> Seq<ChunkView>;

impl ChunkQueue {
    /// Relies on `futures::channel::mpsc::unbounded`: a new channel holds
    /// no message.
    #[verifier::external_body]
    pub(crate) fn new() -> (r: ChunkQueue)
        ensures
            queued(r) == Seq::<ChunkView>::empty(),
    {
        let (sender, receiver) = futures::channel::mpsc::unbounded();
        ChunkQueue { sender, receiver }
    }

    /// Relies on `UnboundedSender::unbounded_send`: the message goes to the
    /// back of the channel. That call fails only once the receiving end is
    /// closed or dropped, and the receiving end lives in this struct, which
    /// never closes it; so its result carries nothing and is discarded.
    #[verifier::external_body]
    pub(crate) fn send(&mut self, c: Chunk)
        requires
            queued(*old(self)).len() < MAX_QUEUED,
        ensures
            queued(*final(self)) == queued(*old(self)).push(c@),
    {
        let _ = self.sender.unbounded_send(c);
    }

    /// Relies on `UnboundedReceiver::try_recv`: it hands out the oldest
    /// message, and fails without change when none is waiting.
    #[verifier::external_body]
    pub(crate) fn receive(&mut self) -> (r: Option<Chunk>)
        ensures
            queued(*old(self)).len() == 0 ==> r is None && queued(*final(self)) == queued(
                *old(self),
            ),
            queued(*old(self)).len() > 0 ==> r is Some && r->0@ == queued(*old(self))[0]
                && queued(*final(self)) == queued(*old(self)).drop_first(),
    {
        self.receiver.try_recv().ok()
    }
}

} // verus!
