use vstd::prelude::*;
use crate::chunk::ChunkId;

verus! {

/// The identifiers recorded for `name`: the empty sequence when the name
/// was never recorded.
pub open spec fn ids_for(m: Map<Seq<char>, Seq<ChunkId>>, name: Seq<char>) -> Seq<ChunkId> {
    if m.contains_key(name) {
        m[name]
    } else {
        Seq::empty()
    }
}

/// The index after appending `id` to the sequence of `name`, which is
/// created when absent.
pub open spec fn appended(m: Map<Seq<char>, Seq<ChunkId>>, name: Seq<char>, id: ChunkId) -> Map<
    Seq<char>,
    Seq<ChunkId>,
> {
    m.insert(name, ids_for(m, name).push(id))
}

struct IndexEntry {
    name: String,
    ids: Vec<ChunkId>,
}

/// Mapping from a file name to the identifiers of its chunks, in the order
/// in which the chunks were produced. Entries are only ever appended to.
pub struct FileChunkIndex {
    entries: Vec<IndexEntry>,
    model: Ghost<Map<Seq<char>, Seq<ChunkId>>>,
}

impl View for FileChunkIndex {
    type V = Map<Seq<char>, Seq<ChunkId>>;

    closed spec fn view(&self) -> Map<Seq<char>, Seq<ChunkId>> {
        self.model@
    }
}

fn copy_ids(src: &Vec<ChunkId>) -> (r: Vec<ChunkId>)
    ensures
        r@ == src@,
{
    let mut r: Vec<ChunkId> = Vec::new();
    let mut j: usize = 0;
    while j < src.len()
        invariant
            j <= src.len(),
            r@ == src@.subrange(0, j as int),
        decreases src.len() - j,
    {
        r.push(src[j]);
        j = j + 1;
    }
    assert(r@ =~= src@);
    r
}

impl FileChunkIndex {
    /// Names are distinct, and the entries hold exactly the model.
    pub closed spec fn wf(&self) -> bool {
        &&& forall|i: int|
            0 <= i < self.entries.len() ==> {
                &&& self.model@.contains_key(#[trigger] self.entries[i].name@)
                &&& self.model@[self.entries[i].name@] == self.entries[i].ids@
                &&& self.entries[i].ids@.len() > 0
            }
        &&& forall|k: Seq<char>|
            #[trigger] self.model@.contains_key(k) ==> exists|i: int|
                0 <= i < self.entries.len() && #[trigger] self.entries[i].name@ == k
        &&& forall|i: int, j: int|
            0 <= i < j < self.entries.len() ==> #[trigger] self.entries[i].name@
                != #[trigger] self.entries[j].name@
    }

    pub fn new() -> (r: FileChunkIndex)
        ensures
            r.wf(),
            r@ == Map::<Seq<char>, Seq<ChunkId>>::empty(),
    {
        FileChunkIndex { entries: Vec::new(), model: Ghost(Map::empty()) }
    }

    fn position(&self, name: &String) -> (r: Option<usize>)
        requires
            self.wf(),
        ensures
            match r {
                None => !self@.contains_key(name@),
                Some(i) => i < self.entries.len() && self.entries[i as int].name@ == name@,
            },
    {
        let mut i: usize = 0;
        while i < self.entries.len()
            invariant
                self.wf(),
                i <= self.entries.len(),
                forall|j: int| 0 <= j < i ==> self.entries[j].name@ != name@,
            decreases self.entries.len() - i,
        {
            if self.entries[i].name == *name {
                return Some(i);
            }
            i = i + 1;
        }
        None
    }

    /// The identifiers recorded for `name`, in recording order, or `None`
    /// when `name` was never recorded (never an empty sequence).
    pub fn lookup(&self, name: &String) -> (r: Option<Vec<ChunkId>>)
        requires
            self.wf(),
        ensures
            match r {
                None => !self@.contains_key(name@),
                Some(v) => self@.contains_key(name@) && v@ == self@[name@] && v@.len() > 0,
            },
    {
        match self.position(name) {
            None => None,
            Some(i) => Some(copy_ids(&self.entries[i].ids)),
        }
    }

    /// Appends `id` to the sequence of `name`, creating the entry if absent.
    pub fn record(&mut self, name: &String, id: ChunkId)
        requires
            old(self).wf(),
        ensures
            final(self).wf(),
            final(self)@ == appended(old(self)@, name@, id),
    {
        let ghost m0 = self.model@;
        match self.position(name) {
            None => {
                let ghost old_entries = self.entries@;
                let mut ids: Vec<ChunkId> = Vec::new();
                ids.push(id);
                self.entries.push(IndexEntry { name: name.clone(), ids });
                self.model = Ghost(appended(m0, name@, id));
                assert(seq![id] =~= Seq::<ChunkId>::empty().push(id));
                assert forall|k: Seq<char>| #[trigger] self.model@.contains_key(k) implies exists|
                    i: int,
                | 0 <= i < self.entries.len() && #[trigger] self.entries[i].name@ == k by {
                    if k == name@ {
                        assert(self.entries[old_entries.len() as int].name@ == k);
                    } else {
                        assert(m0.contains_key(k));
                        let i = choose|i: int|
                            0 <= i < old_entries.len() && #[trigger] old_entries[i].name@ == k;
                        assert(self.entries[i].name@ == k);
                    }
                }
            },
            Some(i) => {
                let ghost old_entries = self.entries@;
                let mut e = self.entries.swap_remove(i);
                e.ids.push(id);
                self.entries.push(e);
                self.model = Ghost(appended(m0, name@, id));
                let ghost n = self.entries.len() as int;
                let ghost last = old_entries.len() - 1;
                // where each old entry now stands
                assert forall|j: int| 0 <= j < old_entries.len() && j != i implies {
                    let p = if j == last { i as int } else { j };
                    0 <= p < n - 1 && #[trigger] old_entries[j] == self.entries[p]
                } by {}
                assert forall|k: Seq<char>| #[trigger] self.model@.contains_key(k) implies exists|
                    q: int,
                | 0 <= q < self.entries.len() && #[trigger] self.entries[q].name@ == k by {
                    if k == name@ {
                        assert(self.entries[n - 1].name@ == k);
                    } else {
                        let j = choose|j: int|
                            0 <= j < old_entries.len() && #[trigger] old_entries[j].name@ == k;
                        let p = if j == last { i as int } else { j };
                        assert(old_entries[j] == self.entries[p]);
                    }
                }
                assert forall|a: int, b: int|
                    0 <= a < b < self.entries.len() implies #[trigger] self.entries[a].name@
                    != #[trigger] self.entries[b].name@ by {
                    let oa = if a == i { last } else { a };
                    let ob = if b == n - 1 { i as int } else if b == i { last } else { b };
                    assert(self.entries[a] == old_entries[oa]);
                    assert(self.entries[b].name@ == old_entries[ob].name@);
                }
                assert forall|a: int| 0 <= a < self.entries.len() implies {
                    &&& self.model@.contains_key(#[trigger] self.entries[a].name@)
                    &&& self.model@[self.entries[a].name@] == self.entries[a].ids@
                    &&& self.entries[a].ids@.len() > 0
                } by {
                    if a != n - 1 {
                        let oa = if a == i { last } else { a };
                        assert(self.entries[a] == old_entries[oa]);
                    }
                }
            },
        }
    }
}

} // verus!
