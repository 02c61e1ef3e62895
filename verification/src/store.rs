//! The blob store: what stands at which logical path, under which tag a blob is kept, and which
//! blob is read for a path. The bytes themselves are kept elsewhere, by hash.

use vstd::prelude::*;
use vstd::string::*;

use crate::ids::{blob_hash_of, blob_hash_text, hex_text, id_bytes, parse_blob_hash};
use crate::index::{EntryView, PathIndex};
use crate::text::{replace_char, replaced};

verus! {

/// The directory below the data directory that holds the blobs.
pub const BLOBS_DIR: &'static str = "blobs";

/// Seconds between two collections of untagged blobs.
pub const GC_INTERVAL_SECS: u64 = 600;

/// Why a store operation failed.
#[derive(Debug, Clone, Copy, PartialEq, Eq, Structural)]
pub enum StoreError {
    /// The index holds, at the path, a text that is no hash.
    InvalidHashInIndex,
    /// The text is no hash.
    InvalidHash,
    /// The blob could not be stored.
    ImportFailed,
    /// The entry could not be written to the lasting index.
    IndexFailed,
}

/// How the blobs are to be kept.
#[derive(Debug)]
pub struct StoreSettings {
    /// The directory of the blobs, below the data directory.
    pub directory: String,
    /// Seconds between two collections of untagged blobs.
    pub gc_interval_secs: u64,
}

/// How a blob that comes in is to be stored.
#[derive(Debug)]
pub struct ImportPlan {
    /// The tag that the blob is to carry, taken from any blob that carries it now.
    pub tag: String,
    /// Size in bytes.
    pub size: u64,
}

/// The tag of a logical path: tags are flat, so that `/` becomes `:`.
pub open spec fn tag_of(path: Seq<char>) -> Seq<char> {
    "path:"@ + replaced(path, '/', ':')
}

/// Converts a logical path to a tag.
pub fn path_to_tag(path: &str) -> (tag: String)
    ensures
        tag@ == tag_of(path@),
{
    let mut tag = "path:".to_owned();
    let flat = replace_char(path, '/', ':');
    tag.append(flat.as_str());
    tag
}

/// What a directory holds.
#[derive(Debug)]
pub enum FileTree {
    /// A file, with its length.
    File(u64),
    /// A directory, with what it holds; empty where it cannot be read.
    Directory(Vec<FileTree>),
    /// Anything else, and what cannot be looked at.
    Other,
}

impl FileTree {
    /// The bytes in the files of the tree.
    pub open spec fn bytes(self) -> nat
        decreases self,
    {
        match self {
            FileTree::File(len) => len as nat,
            FileTree::Directory(list) => total_of(list@),
            FileTree::Other => 0,
        }
    }
}

/// The bytes in the files of several trees.
pub open spec fn total_of(list: Seq<FileTree>) -> nat
    decreases list,
{
    if list.len() == 0 {
        0
    } else {
        total_of(list.drop_last()) + list[list.len() - 1].bytes()
    }
}

/// The total of a longer list is no smaller.
proof fn lemma_total_grows(list: Seq<FileTree>, n: int)
    requires
        0 <= n <= list.len(),
    ensures
        total_of(list.take(n)) <= total_of(list),
    decreases list.len(),
{
    if n == list.len() {
        assert(list.take(n) =~= list);
    } else {
        lemma_total_grows(list.drop_last(), n);
        assert(list.drop_last().take(n) =~= list.take(n));
    }
}

/// Sums the sizes of the files that a directory holds, at any depth; `None` where the sum does
/// not fit.
pub fn dir_size(list: &Vec<FileTree>) -> (size: Option<u64>)
    ensures
        match size {
            Some(size) => size == total_of(list@),
            None => total_of(list@) > u64::MAX,
        },
    decreases list,
{
    let mut total: u64 = 0;
    for i in 0..list.len()
        invariant
            total == total_of(list@.take(i as int)),
    {
        proof {
            assert(list@.take(i + 1).drop_last() =~= list@.take(i as int));
            assert(total_of(list@.take(i + 1)) == total_of(list@.take(i as int))
                + list@[i as int].bytes());
            lemma_total_grows(list@, i + 1);
        }
        let part: Option<u64> = match &list[i] {
            FileTree::File(len) => Some(*len),
            FileTree::Directory(inner) => {
                assert(decreases_to!(list => list@));
                assert(decreases_to!(list@ => list@[i as int]));
                dir_size(inner)
            },
            FileTree::Other => Some(0),
        };
        assert(match part {
            Some(part) => part == list@[i as int].bytes(),
            None => list@[i as int].bytes() > u64::MAX,
        });
        match part {
            Some(part) => match total.checked_add(part) {
                Some(sum) => {
                    total = sum;
                },
                None => {
                    return None;
                },
            },
            None => {
                return None;
            },
        }
    }
    assert(list@.take(list@.len() as int) =~= list@);
    Some(total)
}

/// Which blob is read for a path, given the index.
pub open spec fn located(
    index: Map<Seq<char>, EntryView>,
    path: Seq<char>,
) -> Result<Option<Seq<u8>>, StoreError> {
    if !index.contains_key(path) {
        Ok(None)
    } else {
        match blob_hash_of(index[path].hash) {
            Some(hash) => Ok(Some(hash)),
            None => Err(StoreError::InvalidHashInIndex),
        }
    }
}

/// A blob store: the path index, beside blobs that are kept by hash.
pub struct BlobStore {
    index: PathIndex,
}

impl View for BlobStore {
    type V = Map<Seq<char>, EntryView>;

    closed spec fn view(&self) -> Map<Seq<char>, EntryView> {
        self.index@
    }
}

impl BlobStore {
    /// Whether the index is well formed.
    pub closed spec fn wf(&self) -> bool {
        self.index.wf()
    }

    /// Opens the store over an index, and says how the blobs are to be kept.
    pub fn open(index: PathIndex) -> (opened: (BlobStore, StoreSettings))
        requires
            index.wf(),
        ensures
            opened.0.wf(),
            opened.0@ == index@,
            opened.1.directory@ == BLOBS_DIR@,
            opened.1.gc_interval_secs == GC_INTERVAL_SECS,
    {
        (
            BlobStore { index },
            StoreSettings {
                directory: BLOBS_DIR.to_owned(),
                gc_interval_secs: GC_INTERVAL_SECS,
            },
        )
    }

    /// Begins to import bytes at a logical path: says how the blob is to be stored.
    pub fn import(&self, logical_path: &str, data: &[u8]) -> (plan: ImportPlan)
        ensures
            plan.tag@ == tag_of(logical_path@),
            plan.size == data@.len(),
    {
        ImportPlan { tag: path_to_tag(logical_path), size: data.len() as u64 }
    }

    /// Ends an import: with the hash under which the blob was stored, the index takes it in and
    /// the hash is given as text; without one, nothing changes. `written` says whether the entry
    /// could be written to the lasting index; where it could not, nothing changes either.
    pub fn finish_import(
        &mut self,
        logical_path: &str,
        size: u64,
        stored: Option<[u8; 32]>,
        written: bool,
    ) -> (hash: Result<String, StoreError>)
        requires
            old(self).wf(),
        ensures
            final(self).wf(),
            match stored {
                Some(bytes) => if written {
                    hash is Ok && hash->Ok_0@ == hex_text(bytes@) && final(self)@
                        == old(self)@.insert(
                        logical_path@,
                        EntryView { hash: hex_text(bytes@), size },
                    )
                } else {
                    hash == Err::<String, StoreError>(StoreError::IndexFailed) && final(self)@
                        == old(self)@
                },
                None => hash == Err::<String, StoreError>(StoreError::ImportFailed) && final(self)@
                    == old(self)@,
            },
    {
        match stored {
            Some(bytes) => {
                if !written {
                    return Err(StoreError::IndexFailed);
                }
                let hash = blob_hash_text(&bytes);
                self.index.insert(logical_path, hash.clone(), size);
                Ok(hash)
            },
            None => Err(StoreError::ImportFailed),
        }
    }

    /// Which blob is to be read for a logical path: none where nothing is indexed there.
    pub fn get(&self, logical_path: &str) -> (blob: Result<Option<[u8; 32]>, StoreError>)
        requires
            self.wf(),
        ensures
            match blob {
                Ok(blob) => located(self@, logical_path@) == Ok::<_, StoreError>(id_bytes(blob)),
                Err(error) => located(self@, logical_path@) == Err::<Option<Seq<u8>>, _>(error),
            },
    {
        match self.index.get(logical_path) {
            None => Ok(None),
            Some(entry) => match parse_blob_hash(entry.hash.as_str()) {
                Some(hash) => Ok(Some(hash)),
                None => Err(StoreError::InvalidHashInIndex),
            },
        }
    }

    /// What a read hands out: the bytes, or nothing where the blob could not be read.
    pub fn deliver<T, E>(read: Result<T, E>) -> (data: Option<T>)
        ensures
            match read {
                Ok(bytes) => data == Some(bytes),
                Err(_) => data is None,
            },
    {
        match read {
            Ok(bytes) => Some(bytes),
            Err(_) => None,
        }
    }

    /// Whether a blob is indexed at a logical path.
    pub fn contains(&self, logical_path: &str) -> (found: bool)
        requires
            self.wf(),
        ensures
            found == self@.contains_key(logical_path@),
    {
        self.index.contains(logical_path)
    }

    /// The path index.
    pub fn index(&self) -> (index: &PathIndex)
        requires
            self.wf(),
        ensures
            index.wf(),
            index@ == self@,
    {
        &self.index
    }

    /// Indexes a blob whose bytes are stored already. `written` says whether the entry could be
    /// written to the lasting index; where it could not, nothing changes.
    pub fn register_downloaded(
        &mut self,
        logical_path: &str,
        hash_hex: &str,
        size: u64,
        written: bool,
    ) -> (result: Result<(), StoreError>)
        requires
            old(self).wf(),
        ensures
            final(self).wf(),
            written ==> result == Ok::<(), StoreError>(()) && final(self)@ == old(self)@.insert(
                logical_path@,
                EntryView { hash: hash_hex@, size },
            ),
            !written ==> result == Err::<(), StoreError>(StoreError::IndexFailed) && final(self)@
                == old(self)@,
    {
        if !written {
            return Err(StoreError::IndexFailed);
        }
        self.index.insert(logical_path, hash_hex.to_owned(), size);
        Ok(())
    }

    /// Which blob is to be read for a hash in text.
    pub fn get_by_hash(&self, hash_hex: &str) -> (blob: Result<[u8; 32], StoreError>)
        ensures
            match blob {
                Ok(blob) => blob_hash_of(hash_hex@) == Some(blob@),
                Err(error) => blob_hash_of(hash_hex@) is None && error == StoreError::InvalidHash,
            },
    {
        match parse_blob_hash(hash_hex) {
            Some(hash) => Ok(hash),
            None => Err(StoreError::InvalidHash),
        }
    }

    /// How many blobs are indexed.
    pub fn blob_count(&self) -> (count: usize)
        requires
            self.wf(),
        ensures
            count == self@.len(),
    {
        self.index.len()
    }

    /// The bytes that the blobs take on disk, given what their directory holds; zero where the
    /// sum does not fit.
    pub fn total_bytes(&self, blobs_dir: &Vec<FileTree>) -> (bytes: u64)
        ensures
            bytes == (if total_of(blobs_dir@) <= u64::MAX {
                total_of(blobs_dir@)
            } else {
                0
            }),
    {
        match dir_size(blobs_dir) {
            Some(size) => size,
            None => 0,
        }
    }
}

} // verus!
