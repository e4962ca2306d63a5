use chunkmaster::chunk::CHUNK_SIZE;
use chunkmaster::{Chunk, ChunkId, FileChunkIndex, Master, Phase, ReadStep};

/// Feeds `source` to the master the way a reader that always fills its
/// buffer would, and returns the identifiers it was given.
fn ingest(master: &mut Master, name: &str, source: &[u8], chunk_size: usize) -> Vec<ChunkId> {
    master.begin(name.to_string());
    let mut ids = Vec::new();
    let mut offset = 0;
    loop {
        let mut buf = vec![0u8; chunk_size];
        let n = std::cmp::min(chunk_size, source.len() - offset);
        buf[..n].copy_from_slice(&source[offset..offset + n]);
        offset += n;
        match master.accept_read(buf, n) {
            ReadStep::Emitted(id) => ids.push(id),
            ReadStep::Exhausted => break,
        }
    }
    ids
}

fn sizes(chunks: &[Chunk]) -> Vec<usize> {
    chunks.iter().map(|c| c.len()).collect()
}

#[test]
fn split_150_mib_into_three_chunks() {
    let mib = 1024 * 1024;
    assert_eq!(CHUNK_SIZE, 64 * mib);
    let source: Vec<u8> = (0..150 * mib).map(|i| (i % 251) as u8).collect();
    let mut master = Master::new();
    let ids = ingest(&mut master, "big.iso", &source, CHUNK_SIZE);
    assert_eq!(ids.len(), 3);
    assert_eq!(master.lookup(&"big.iso".to_string()), Some(ids.clone()));
    assert_eq!(master.phase(), Phase::Draining);
    let chunks = master.drain();
    assert_eq!(sizes(&chunks), vec![64 * mib, 64 * mib, 22 * mib]);
    let tokens: Vec<ChunkId> = chunks.iter().map(|c| c.token()).collect();
    assert_eq!(tokens, ids);
    let mut offset = 0;
    for c in &chunks {
        assert!(c.data()[..] == source[offset..offset + c.len()]);
        offset += c.len();
    }
    assert_eq!(offset, source.len());
    assert_eq!(master.phase(), Phase::Done);
}

#[test]
fn index_and_channel_share_read_order() {
    let mut master = Master::new();
    master.begin("f".to_string());
    let reads: Vec<Vec<u8>> = vec![vec![1, 2, 3], vec![4, 5, 6, 7, 8], vec![9, 10]];
    let mut ids = Vec::new();
    for r in &reads {
        let mut buf = r.clone();
        buf.resize(16, 0xee);
        match master.accept_read(buf, r.len()) {
            ReadStep::Emitted(id) => ids.push(id),
            other => panic!("unexpected step {:?}", other),
        }
    }
    assert_eq!(master.pending(), 3);
    assert_eq!(master.accept_read(vec![0u8; 16], 0), ReadStep::Exhausted);
    assert_eq!(master.lookup(&"f".to_string()), Some(ids.clone()));
    let chunks = master.drain();
    let tokens: Vec<ChunkId> = chunks.iter().map(|c| c.token()).collect();
    assert_eq!(tokens, ids);
    let joined: Vec<u8> = chunks.into_iter().flat_map(|c| c.into_data()).collect();
    assert_eq!(joined, (1..=10).collect::<Vec<u8>>());
}

#[test]
fn chunk_is_cut_to_the_bytes_read() {
    let mut master = Master::new();
    master.begin("short".to_string());
    let step = master.accept_read(vec![7, 8, 9, 0, 0, 0, 0, 0], 3);
    assert!(matches!(step, ReadStep::Emitted(_)));
    assert_eq!(master.accept_read(Vec::new(), 0), ReadStep::Exhausted);
    let chunks = master.drain();
    assert_eq!(chunks.len(), 1);
    assert_eq!(chunks[0].data(), &vec![7u8, 8, 9]);
}

#[test]
fn empty_file_makes_no_chunk_and_no_entry() {
    let mut master = Master::new();
    let ids = ingest(&mut master, "empty.bin", &[], CHUNK_SIZE);
    assert!(ids.is_empty());
    assert_eq!(master.pending(), 0);
    assert_eq!(master.lookup(&"empty.bin".to_string()), None);
    assert!(master.drain().is_empty());
    assert_eq!(master.phase(), Phase::Done);
}

#[test]
fn never_recorded_name_is_absent() {
    let index = FileChunkIndex::new();
    assert_eq!(index.lookup(&"nothing".to_string()), None);
}

#[test]
fn repeated_lookup_gives_the_same_answer() {
    let mut master = Master::new();
    ingest(&mut master, "twice", &[1, 2, 3, 4, 5], 2);
    let first = master.lookup(&"twice".to_string());
    let second = master.lookup(&"twice".to_string());
    assert_eq!(first.as_ref().map(|v| v.len()), Some(3));
    assert_eq!(first, second);
}

#[test]
fn interleaved_records_lose_nothing() {
    let mut index = FileChunkIndex::new();
    let name = "shared".to_string();
    let a: Vec<ChunkId> = (1..=4).map(ChunkId::from_u128).collect();
    let b: Vec<ChunkId> = (11..=14).map(ChunkId::from_u128).collect();
    for i in 0..4 {
        index.record(&name, a[i]);
        index.record(&"other".to_string(), ChunkId::from_u128(100 + i as u128));
        index.record(&name, b[i]);
    }
    let got = index.lookup(&name).unwrap();
    assert_eq!(got.len(), 8);
    for id in a.iter().chain(b.iter()) {
        assert!(got.contains(id));
    }
    let expected: Vec<ChunkId> = (0..4).flat_map(|i| vec![a[i], b[i]]).collect();
    assert_eq!(got, expected);
    assert_eq!(index.lookup(&"other".to_string()).map(|v| v.len()), Some(4));
}

#[test]
fn record_creates_then_appends() {
    let mut index = FileChunkIndex::new();
    let name = "f".to_string();
    index.record(&name, ChunkId::from_u128(5));
    assert_eq!(index.lookup(&name), Some(vec![ChunkId::from_u128(5)]));
    index.record(&name, ChunkId::from_u128(3));
    assert_eq!(index.lookup(&name), Some(vec![ChunkId::from_u128(5), ChunkId::from_u128(3)]));
}

#[test]
fn generated_ids_differ() {
    let ids: Vec<u128> = (0..1000).map(|_| ChunkId::generate().as_u128()).collect();
    let mut sorted = ids.clone();
    sorted.sort();
    sorted.dedup();
    assert_eq!(sorted.len(), ids.len());
}

#[test]
fn generated_ids_are_version_four() {
    for _ in 0..50 {
        let v = ChunkId::generate().as_u128();
        assert_eq!((v >> 76) & 0xf, 4);
        assert_eq!((v >> 62) & 0x3, 2);
    }
}

#[test]
fn chunks_of_one_run_have_distinct_ids() {
    let mut master = Master::new();
    let source: Vec<u8> = (0..200u8).collect();
    let ids = ingest(&mut master, "many", &source, 3);
    assert_eq!(ids.len(), 67);
    let mut sorted: Vec<u128> = ids.iter().map(|i| i.as_u128()).collect();
    sorted.sort();
    sorted.dedup();
    assert_eq!(sorted.len(), 67);
}

#[test]
fn read_failure_keeps_what_was_recorded() {
    let mut master = Master::new();
    master.begin("broken".to_string());
    let id = match master.accept_read(vec![1, 2, 3], 3) {
        ReadStep::Emitted(id) => id,
        other => panic!("unexpected step {:?}", other),
    };
    master.fail();
    assert_eq!(master.phase(), Phase::Failed);
    assert_eq!(master.lookup(&"broken".to_string()), Some(vec![id]));
    assert_eq!(master.pending(), 1);
    let leftover = master.drain();
    assert_eq!(leftover.len(), 1);
    assert_eq!(leftover[0].token(), id);
    assert_eq!(master.phase(), Phase::Failed);
    let next = ingest(&mut master, "fresh", &[9, 9], 4);
    let chunks = master.drain();
    assert_eq!(chunks.iter().map(|c| c.token()).collect::<Vec<_>>(), next);
}

#[test]
fn drain_next_goes_oldest_first_then_done() {
    let mut master = Master::new();
    let ids = ingest(&mut master, "d", &[1, 2, 3, 4], 2);
    let first = master.drain_next().unwrap();
    assert_eq!(first.token(), ids[0]);
    assert_eq!(first.data(), &vec![1u8, 2]);
    let second = master.drain_next().unwrap();
    assert_eq!(second.token(), ids[1]);
    assert_eq!(master.phase(), Phase::Draining);
    assert!(master.drain_next().is_none());
    assert_eq!(master.phase(), Phase::Done);
}

#[test]
fn second_ingestion_after_done() {
    let mut master = Master::new();
    let first = ingest(&mut master, "one", &[1, 2, 3], 2);
    master.drain();
    let second = ingest(&mut master, "two", &[4], 2);
    assert_eq!(master.file_name(), "two");
    assert_eq!(master.lookup(&"one".to_string()), Some(first));
    assert_eq!(master.lookup(&"two".to_string()), Some(second));
}

#[test]
fn chunk_accessors() {
    let c = Chunk::new(ChunkId::from_u128(42), vec![1, 2]);
    assert_eq!(c.token().as_u128(), 42);
    assert_eq!(c.len(), 2);
    assert_eq!(c.into_data(), vec![1, 2]);
}
