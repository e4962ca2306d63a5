use vstd::prelude::*;
use crate::chunk::{ChunkId, ChunkView};
use crate::index::{appended, ids_for};
use crate::master::{after_read, MasterView, Phase};

verus! {

/// The coordinator after a run of reads: the i-th read gives `reads[i]`
/// and its chunk is named `ids[i]`.
pub open spec fn after_reads(pre: MasterView, reads: Seq<Seq<u8>>, ids: Seq<ChunkId>) -> MasterView
    decreases reads.len(),
{
    if reads.len() == 0 || ids.len() == 0 {
        pre
    } else {
        after_read(after_reads(pre, reads.drop_last(), ids.drop_last()), reads.last(), ids.last())
    }
}

/// The chunks that the reads `reads` make under the identifiers `ids`.
pub open spec fn chunks_of(reads: Seq<Seq<u8>>, ids: Seq<ChunkId>) -> Seq<ChunkView> {
    Seq::new(ids.len(), |i: int| ChunkView { token: ids[i], data: reads[i] })
}

/// The identifiers of queued chunks, in queue order.
pub open spec fn tokens(q: Seq<ChunkView>) -> Seq<ChunkId> {
    q.map_values(|c: ChunkView| c.token)
}

/// The byte buffers of queued chunks, in queue order.
pub open spec fn buffers(q: Seq<ChunkView>) -> Seq<Seq<u8>> {
    q.map_values(|c: ChunkView| c.data)
}

/// The index after `ids` were recorded for `name`, one after the other.
pub open spec fn appended_all(
    m: Map<Seq<char>, Seq<ChunkId>>,
    name: Seq<char>,
    ids: Seq<ChunkId>,
) -> Map<Seq<char>, Seq<ChunkId>>
    decreases ids.len(),
{
    if ids.len() == 0 {
        m
    } else {
        appended(appended_all(m, name, ids.drop_last()), name, ids.last())
    }
}

/// Reads that return bytes append their identifiers, in read order, to the
/// file's index entry, and their chunks, in the same order, to the back of
/// the channel; no other file's entry changes.
pub proof fn lemma_chunks_in_read_order(pre: MasterView, reads: Seq<Seq<u8>>, ids: Seq<ChunkId>)
    requires
        reads.len() == ids.len(),
        forall|i: int| 0 <= i < reads.len() ==> #[trigger] reads[i].len() > 0,
    ensures
        ids_for(after_reads(pre, reads, ids).index, pre.file) == ids_for(pre.index, pre.file) + ids,
        after_reads(pre, reads, ids).queue == pre.queue + chunks_of(reads, ids),
        after_reads(pre, reads, ids).phase == pre.phase,
        after_reads(pre, reads, ids).file == pre.file,
        forall|k: Seq<char>|
            k != pre.file ==> #[trigger] ids_for(after_reads(pre, reads, ids).index, k) == ids_for(
                pre.index,
                k,
            ),
    decreases reads.len(),
{
    if reads.len() > 0 {
        let (r0, i0) = (reads.drop_last(), ids.drop_last());
        assert forall|i: int| 0 <= i < r0.len() implies #[trigger] r0[i].len() > 0 by {
            assert(r0[i] == reads[i]);
        }
        lemma_chunks_in_read_order(pre, r0, i0);
        assert(reads.last().len() > 0);
        assert(ids_for(pre.index, pre.file) + i0 + seq![ids.last()] =~= ids_for(pre.index, pre.file)
            + ids);
        assert(ids_for(pre.index, pre.file) + ids =~= (ids_for(pre.index, pre.file) + i0).push(
            ids.last(),
        ));
        assert((pre.queue + chunks_of(r0, i0)).push(ChunkView { token: ids.last(), data: reads.last() })
            =~= pre.queue + chunks_of(reads, ids));
        let prev = after_reads(pre, r0, i0);
        assert forall|k: Seq<char>| k != pre.file implies #[trigger] ids_for(
            after_reads(pre, reads, ids).index,
            k,
        ) == ids_for(pre.index, k) by {
            assert(ids_for(prev.index, k) == ids_for(pre.index, k));
        }
    }
}

/// Ingesting a file not recorded before, into an empty channel: the
/// index entry of the file and the channel name the same chunks in the
/// same order, the order of the reads.
pub proof fn lemma_index_matches_channel(pre: MasterView, reads: Seq<Seq<u8>>, ids: Seq<ChunkId>)
    requires
        reads.len() == ids.len(),
        reads.len() > 0,
        forall|i: int| 0 <= i < reads.len() ==> #[trigger] reads[i].len() > 0,
        !pre.index.contains_key(pre.file),
        pre.queue.len() == 0,
    ensures
        after_reads(pre, reads, ids).index.contains_key(pre.file),
        after_reads(pre, reads, ids).index[pre.file] == ids,
        tokens(after_reads(pre, reads, ids).queue) == ids,
{
    lemma_chunks_in_read_order(pre, reads, ids);
    let post = after_reads(pre, reads, ids);
    assert(Seq::<ChunkId>::empty() + ids =~= ids);
    assert(pre.queue + chunks_of(reads, ids) =~= chunks_of(reads, ids));
    assert(tokens(post.queue) =~= ids);
    assert(post.index.contains_key(pre.file)) by {
        if !post.index.contains_key(pre.file) {
            assert(ids_for(post.index, pre.file).len() == 0);
        }
    }
}

/// Identifiers that the generator drew without repeating stay distinct:
/// ingesting a file not recorded before, into an empty channel, gives an
/// index entry and a channel in which no identifier occurs twice.
pub proof fn lemma_distinct_draws_stay_distinct(
    pre: MasterView,
    reads: Seq<Seq<u8>>,
    ids: Seq<ChunkId>,
)
    requires
        reads.len() == ids.len(),
        reads.len() > 0,
        forall|i: int| 0 <= i < reads.len() ==> #[trigger] reads[i].len() > 0,
        !pre.index.contains_key(pre.file),
        pre.queue.len() == 0,
        ids.no_duplicates(),
    ensures
        after_reads(pre, reads, ids).index[pre.file].no_duplicates(),
        tokens(after_reads(pre, reads, ids).queue).no_duplicates(),
{
    lemma_index_matches_channel(pre, reads, ids);
}

/// Ingesting into an empty channel: the chunk buffers, concatenated in
/// channel order, give back exactly the bytes read, in order.
pub proof fn lemma_buffers_give_back_source(pre: MasterView, reads: Seq<Seq<u8>>, ids: Seq<ChunkId>)
    requires
        reads.len() == ids.len(),
        forall|i: int| 0 <= i < reads.len() ==> #[trigger] reads[i].len() > 0,
        pre.queue.len() == 0,
    ensures
        buffers(after_reads(pre, reads, ids).queue).flatten() == reads.flatten(),
{
    lemma_chunks_in_read_order(pre, reads, ids);
    let post = after_reads(pre, reads, ids);
    assert(pre.queue + chunks_of(reads, ids) =~= chunks_of(reads, ids));
    assert(buffers(post.queue) =~= reads);
}

/// A source whose first read returns nothing yields no chunk, and the
/// file's name stays absent from the index (it is not given an empty
/// entry).
pub proof fn lemma_empty_source(pre: MasterView, id: ChunkId)
    requires
        pre.phase is Splitting,
        !pre.index.contains_key(pre.file),
    ensures
        after_read(pre, Seq::empty(), id).queue == pre.queue,
        after_read(pre, Seq::empty(), id).index == pre.index,
        !after_read(pre, Seq::empty(), id).index.contains_key(pre.file),
        after_read(pre, Seq::empty(), id).phase == Phase::Draining,
{
}

/// Records for one name, in whatever order a lock lets their producers
/// through, lose none: the entry grows by exactly those identifiers, each
/// of them is in it, and other names are untouched.
pub proof fn lemma_records_lose_nothing(
    m: Map<Seq<char>, Seq<ChunkId>>,
    name: Seq<char>,
    ids: Seq<ChunkId>,
)
    ensures
        ids_for(appended_all(m, name, ids), name) == ids_for(m, name) + ids,
        forall|i: int|
            0 <= i < ids.len() ==> ids_for(appended_all(m, name, ids), name).contains(
                #[trigger] ids[i],
            ),
        forall|k: Seq<char>|
            k != name ==> #[trigger] ids_for(appended_all(m, name, ids), k) == ids_for(m, k),
    decreases ids.len(),
{
    if ids.len() > 0 {
        lemma_records_lose_nothing(m, name, ids.drop_last());
        assert(ids_for(m, name) + ids =~= (ids_for(m, name) + ids.drop_last()).push(ids.last()));
        let prev = appended_all(m, name, ids.drop_last());
        assert forall|k: Seq<char>| k != name implies #[trigger] ids_for(
            appended_all(m, name, ids),
            k,
        ) == ids_for(m, k) by {
            assert(ids_for(prev, k) == ids_for(m, k));
        }
    }
    let all = ids_for(m, name) + ids;
    assert forall|i: int| 0 <= i < ids.len() implies all.contains(#[trigger] ids[i]) by {
        assert(all[ids_for(m, name).len() + i] == ids[i]);
    }
}

} // verus!
