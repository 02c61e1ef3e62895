//! The path index: which blob, of which size, stands at which logical path.

use vstd::prelude::*;
use vstd::hash_map::StringHashMap;

verus! {

/// What the index holds of one archive.
#[derive(Debug, Clone)]
pub struct IndexEntry {
    /// BLAKE3 hash of the blob, as text.
    pub hash: String,
    /// Size in bytes.
    pub size: u64,
}

/// The mathematical form of an `IndexEntry`.
pub struct EntryView {
    pub hash: Seq<char>,
    pub size: u64,
}

impl View for IndexEntry {
    type V = EntryView;

    open spec fn view(&self) -> EntryView {
        EntryView { hash: self.hash@, size: self.size }
    }
}

/// An archive in the index, with its logical path.
#[derive(Debug, Clone)]
pub struct IndexedArchive {
    pub path: String,
    pub entry: IndexEntry,
}

/// The map that a list of archives stands for.
pub open spec fn archive_map(list: Seq<IndexedArchive>) -> Map<Seq<char>, EntryView>
    decreases list.len(),
{
    if list.len() == 0 {
        Map::empty()
    } else {
        archive_map(list.drop_last()).insert(list.last().path@, list.last().entry@)
    }
}

/// Whether no two archives of the list share a path.
pub open spec fn distinct_paths(list: Seq<IndexedArchive>) -> bool {
    forall|i: int, j: int|
        0 <= i < list.len() && 0 <= j < list.len() && #[trigger] list[i].path@
            == #[trigger] list[j].path@ ==> i == j
}

/// A map from logical paths to blobs.
pub struct PathIndex {
    archives: Vec<IndexedArchive>,
    slots: StringHashMap<usize>,
}

impl View for PathIndex {
    type V = Map<Seq<char>, EntryView>;

    closed spec fn view(&self) -> Map<Seq<char>, EntryView> {
        archive_map(self.archives@)
    }
}

/// Which paths an `archive_map` has, and what stands at them.
pub proof fn lemma_archive_map(list: Seq<IndexedArchive>)
    requires
        distinct_paths(list),
    ensures
        archive_map(list).dom().finite(),
        archive_map(list).len() == list.len(),
        forall|i: int|
            0 <= i < list.len() ==> archive_map(list).contains_key(#[trigger] list[i].path@)
                && archive_map(list)[list[i].path@] == list[i].entry@,
        forall|path: Seq<char>| #[trigger]
            archive_map(list).contains_key(path) ==> exists|i: int|
                0 <= i < list.len() && #[trigger] list[i].path@ == path,
    decreases list.len(),
{
    if list.len() > 0 {
        let front = list.drop_last();
        lemma_archive_map(front);
        assert(!archive_map(front).contains_key(list.last().path@)) by {
            if archive_map(front).contains_key(list.last().path@) {
                let i = choose|i: int|
                    0 <= i < front.len() && #[trigger] front[i].path@ == list.last().path@;
                assert(list[i].path@ == list[list.len() - 1].path@);
            }
        }
        assert forall|i: int| 0 <= i < list.len() implies archive_map(list).contains_key(
            #[trigger] list[i].path@,
        ) && archive_map(list)[list[i].path@] == list[i].entry@ by {
            if i < front.len() {
                assert(front[i].path@ == list[i].path@);
                assert(list[i].path@ != list[list.len() - 1].path@);
            }
        }
        assert forall|path: Seq<char>| #[trigger] archive_map(list).contains_key(path) implies exists|
            i: int,
        | 0 <= i < list.len() && #[trigger] list[i].path@ == path by {
            if path == list.last().path@ {
                assert(list[list.len() - 1].path@ == path);
            } else {
                let i = choose|i: int| 0 <= i < front.len() && #[trigger] front[i].path@ == path;
                assert(list[i].path@ == path);
            }
        }
    }
}

impl PathIndex {
    /// Every path stands once in the list, and its slot is where it stands.
    pub closed spec fn wf(&self) -> bool {
        &&& distinct_paths(self.archives@)
        &&& forall|i: int|
            0 <= i < self.archives@.len() ==> self.slots@.contains_key(
                #[trigger] self.archives@[i].path@,
            ) && self.slots@[self.archives@[i].path@] == i
        &&& forall|path: Seq<char>| #[trigger]
            self.slots@.contains_key(path) ==> self.slots@[path] < self.archives@.len()
                && self.archives@[self.slots@[path] as int].path@ == path
    }

    /// The empty index.
    pub fn new() -> (index: Self)
        ensures
            index.wf(),
            index@ == Map::<Seq<char>, EntryView>::empty(),
    {
        PathIndex { archives: Vec::new(), slots: StringHashMap::new() }
    }

    /// Puts a blob at a path, in place of what stood there.
    pub fn insert(&mut self, path: &str, hash: String, size: u64)
        requires
            old(self).wf(),
        ensures
            final(self).wf(),
            final(self)@ == old(self)@.insert(path@, EntryView { hash: hash@, size }),
    {
        let ghost before = self.archives@;
        let entry = IndexEntry { hash, size };
        let slot: Option<usize> = match self.slots.get(path) {
            Some(slot) => Some(*slot),
            None => None,
        };
        let archive = IndexedArchive { path: path.to_owned(), entry };
        match slot {
            Some(slot) => {
                self.archives.set(slot, archive);
                proof {
                    lemma_archive_map(before);
                    assert(self.archives@[slot as int].path@ == before[slot as int].path@);
                    assert forall|i: int| 0 <= i < before.len() implies #[trigger] self.archives@[i].path@
                        == before[i].path@ by {}
                    assert(distinct_paths(self.archives@)) by {
                        assert forall|i: int, j: int|
                            0 <= i < self.archives@.len() && 0 <= j < self.archives@.len()
                                && #[trigger] self.archives@[i].path@
                                == #[trigger] self.archives@[j].path@ implies i == j by {
                            assert(before[i].path@ == before[j].path@);
                        }
                    }
                    assert forall|i: int| 0 <= i < self.archives@.len() implies self.slots@.contains_key(
                        #[trigger] self.archives@[i].path@,
                    ) && self.slots@[self.archives@[i].path@] == i by {
                        assert(before[i].path@ == self.archives@[i].path@);
                    }
                    lemma_archive_map(self.archives@);
                    assert forall|p: Seq<char>| #[trigger] archive_map(self.archives@).contains_key(
                        p,
                    ) == archive_map(before).insert(path@, archive.entry@).contains_key(p) by {
                        if archive_map(self.archives@).contains_key(p) {
                            let i = choose|i: int|
                                0 <= i < self.archives@.len() && #[trigger] self.archives@[i].path@
                                    == p;
                            assert(before[i].path@ == p);
                        }
                        if archive_map(before).contains_key(p) {
                            let i = choose|i: int|
                                0 <= i < before.len() && #[trigger] before[i].path@ == p;
                            assert(self.archives@[i].path@ == p);
                        }
                    }
                    assert forall|p: Seq<char>| #[trigger] archive_map(self.archives@).contains_key(
                        p,
                    ) implies archive_map(self.archives@)[p] == archive_map(before).insert(
                        path@,
                        archive.entry@,
                    )[p] by {
                        let i = choose|i: int|
                            0 <= i < self.archives@.len() && #[trigger] self.archives@[i].path@ == p;
                        assert(before[i].path@ == p);
                    }
                    assert(self@ =~= old(self)@.insert(path@, archive.entry@));
                }
            },
            None => {
                let next: usize = self.archives.len();
                self.slots.insert(path.to_owned(), next);
                self.archives.push(archive);
                proof {
                    assert forall|i: int| 0 <= i < before.len() implies #[trigger] self.archives@[i]
                        == before[i] by {}
                    assert forall|i: int| 0 <= i < before.len() implies #[trigger] before[i].path@
                        != path@ by {
                        assert(old(self).slots@.contains_key(before[i].path@));
                    }
                    assert forall|i: int, j: int|
                        0 <= i < self.archives@.len() && 0 <= j < self.archives@.len()
                            && #[trigger] self.archives@[i].path@
                            == #[trigger] self.archives@[j].path@ implies i == j by {
                        if i < before.len() {
                            assert(before[i].path@ == self.archives@[i].path@);
                        }
                        if j < before.len() {
                            assert(before[j].path@ == self.archives@[j].path@);
                        }
                    }
                    assert forall|i: int| 0 <= i < self.archives@.len() implies self.slots@.contains_key(
                        #[trigger] self.archives@[i].path@,
                    ) && self.slots@[self.archives@[i].path@] == i by {
                        if i < before.len() {
                            assert(before[i].path@ == self.archives@[i].path@);
                        }
                    }
                    assert(self.archives@.drop_last() =~= before);
                }
            },
        }
    }

    /// What stands at a path.
    pub fn get(&self, path: &str) -> (entry: Option<IndexEntry>)
        requires
            self.wf(),
        ensures
            match entry {
                Some(entry) => self@.contains_key(path@) && entry@ == self@[path@],
                None => !self@.contains_key(path@),
            },
    {
        proof {
            lemma_archive_map(self.archives@);
        }
        match self.slots.get(path) {
            Some(slot) => {
                let entry = &self.archives[*slot].entry;
                Some(IndexEntry { hash: entry.hash.clone(), size: entry.size })
            },
            None => None,
        }
    }

    /// Whether something stands at a path.
    pub fn contains(&self, path: &str) -> (found: bool)
        requires
            self.wf(),
        ensures
            found == self@.contains_key(path@),
    {
        proof {
            lemma_archive_map(self.archives@);
        }
        self.slots.contains_key(path)
    }

    /// How many paths there are.
    pub fn len(&self) -> (count: usize)
        requires
            self.wf(),
        ensures
            count == self@.len(),
    {
        proof {
            lemma_archive_map(self.archives@);
        }
        self.archives.len()
    }

    /// All archives.
    pub fn dump(&self) -> (list: Vec<IndexedArchive>)
        requires
            self.wf(),
        ensures
            distinct_paths(list@),
            archive_map(list@) == self@,
    {
        let mut list: Vec<IndexedArchive> = Vec::new();
        for i in 0..self.archives.len()
            invariant
                list@.len() == i,
                forall|k: int|
                    0 <= k < i ==> (#[trigger] list@[k]).path@ == self.archives@[k].path@
                        && list@[k].entry@ == self.archives@[k].entry@,
        {
            let archive = &self.archives[i];
            list.push(
                IndexedArchive {
                    path: archive.path.clone(),
                    entry: IndexEntry {
                        hash: archive.entry.hash.clone(),
                        size: archive.entry.size,
                    },
                },
            );
        }
        proof {
            lemma_same_archives(list@, self.archives@);
        }
        list
    }
}

/// Lists that agree archive for archive stand for the same map.
proof fn lemma_same_archives(a: Seq<IndexedArchive>, b: Seq<IndexedArchive>)
    requires
        a.len() == b.len(),
        distinct_paths(b),
        forall|k: int|
            0 <= k < a.len() ==> (#[trigger] a[k]).path@ == b[k].path@ && a[k].entry@
                == b[k].entry@,
    ensures
        distinct_paths(a),
        archive_map(a) == archive_map(b),
    decreases a.len(),
{
    assert forall|i: int, j: int|
        0 <= i < a.len() && 0 <= j < a.len() && #[trigger] a[i].path@
            == #[trigger] a[j].path@ implies i == j by {
        assert(b[i].path@ == b[j].path@);
    }
    if a.len() > 0 {
        assert(a[a.len() - 1].path@ == b[a.len() - 1].path@);
        lemma_same_archives(a.drop_last(), b.drop_last());
    }
}

} // verus!
