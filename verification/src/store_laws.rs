//! What holds of the index and the store, said of paths, entries and sizes.

use vstd::prelude::*;
use vstd::string::*;

use crate::ids::{blob_hash_of, hex_text};
use crate::index::{archive_map, distinct_paths, lemma_archive_map};
use crate::index::{EntryView, IndexEntry, IndexedArchive};
use crate::store::{located, tag_of, total_of, FileTree, StoreError};
use crate::text_laws::replacing_is_done_character_by_character;

verus! {

/// An entry is seen with its hash and its size.
pub proof fn entries_are_seen(entry: IndexEntry)
    ensures
        entry@.hash == entry.hash@,
        entry@.size == entry.size,
{
}

/// Paths are distinct where no two archives, one before the other, have the same.
pub proof fn distinct_paths_do_not_occur_twice(list: Seq<IndexedArchive>)
    ensures
        distinct_paths(list) <==> forall|i: int, j: int|
            0 <= i < j < list.len() ==> #[trigger] list[i].path@ != #[trigger] list[j].path@,
{
    if forall|i: int, j: int|
        0 <= i < j < list.len() ==> #[trigger] list[i].path@ != #[trigger] list[j].path@ {
        assert forall|i: int, j: int|
            0 <= i < list.len() && 0 <= j < list.len() && #[trigger] list[i].path@
                == #[trigger] list[j].path@ implies i == j by {
            if i < j {
                assert(list[i].path@ != list[j].path@);
            }
            if j < i {
                assert(list[j].path@ != list[i].path@);
            }
        }
    }
}

/// A list of archives with distinct paths holds what its map holds: as many entries, each at its
/// path.
pub proof fn listed_archives_are_mapped(list: Seq<IndexedArchive>, path: Seq<char>, entry: EntryView)
    requires
        distinct_paths(list),
    ensures
        archive_map(list).len() == list.len(),
        (archive_map(list).contains_key(path) && archive_map(list)[path] == entry) <==> exists|
            i: int,
        |
            0 <= i < list.len() && (#[trigger] list[i]).path@ == path && list[i].entry@ == entry,
{
    lemma_archive_map(list);
    if exists|i: int|
        0 <= i < list.len() && (#[trigger] list[i]).path@ == path && list[i].entry@ == entry {
        let i = choose|i: int|
            0 <= i < list.len() && (#[trigger] list[i]).path@ == path && list[i].entry@ == entry;
        assert(archive_map(list).contains_key(list[i].path@));
    }
    if archive_map(list).contains_key(path) && archive_map(list)[path] == entry {
        let i = choose|i: int| 0 <= i < list.len() && #[trigger] list[i].path@ == path;
        assert(list[i].path@ == path && list[i].entry@ == entry);
    }
}

/// A tag is `path:` and then the path, character by character, a `:` for every `/`.
pub proof fn tags_follow_their_paths(path: Seq<char>)
    ensures
        tag_of(path).len() == path.len() + 5,
        tag_of(path).take(5) == seq!['p', 'a', 't', 'h', ':'],
        forall|i: int|
            0 <= i < path.len() ==> #[trigger] tag_of(path)[i + 5] == (if path[i] == '/' {
                ':'
            } else {
                path[i]
            }),
{
    reveal_strlit("path:");
    replacing_is_done_character_by_character(path, '/', ':');
    assert(tag_of(path).take(5) =~= seq!['p', 'a', 't', 'h', ':']);
}

/// Nothing has no bytes, a file has its length, a directory what it holds, and anything else none.
pub proof fn files_have_their_lengths(len: u64, list: Vec<FileTree>)
    ensures
        FileTree::File(len).bytes() == len,
        FileTree::Directory(list).bytes() == total_of(list@),
        FileTree::Other.bytes() == 0,
        total_of(Seq::empty()) == 0,
{
}

/// The bytes of a list with one tree more are those before and those of the tree.
pub proof fn every_tree_counts(list: Seq<FileTree>, tree: FileTree)
    ensures
        total_of(list.push(tree)) == total_of(list) + tree.bytes(),
{
    assert(list.push(tree).drop_last() =~= list);
}

/// The bytes of two lists together are the bytes of each.
pub proof fn sizes_add_up(a: Seq<FileTree>, b: Seq<FileTree>)
    ensures
        total_of(a + b) == total_of(a) + total_of(b),
    decreases b.len(),
{
    if b.len() == 0 {
        assert(a + b =~= a);
    } else {
        sizes_add_up(a, b.drop_last());
        assert((a + b).drop_last() =~= a + b.drop_last());
        assert((a + b)[(a + b).len() - 1] == b[b.len() - 1]);
    }
}

/// A read at a path finds nothing where nothing is indexed; where something is, it finds the blob
/// whose hash the entry holds, whatever its size, or tells of an entry that holds none.
pub proof fn reads_follow_the_index(
    index: Map<Seq<char>, EntryView>,
    path: Seq<char>,
    entry: EntryView,
    hash: Seq<u8>,
)
    ensures
        !index.contains_key(path) ==> located(index, path) == Ok::<Option<Seq<u8>>, StoreError>(
            None,
        ),
        blob_hash_of(entry.hash) == Some(hash) ==> located(index.insert(path, entry), path) == Ok::<
            _,
            StoreError,
        >(Some(hash)),
        blob_hash_of(entry.hash) is None ==> located(index.insert(path, entry), path) == Err::<
            Option<Seq<u8>>,
            _,
        >(StoreError::InvalidHashInIndex),
        hash.len() == 32 && entry.hash == hex_text(hash) ==> located(
            index.insert(path, entry),
            path,
        ) == Ok::<_, StoreError>(Some(hash)),
{
    if hash.len() == 32 {
        crate::ids::lemma_blob_hash_round_trip(hash);
    }
}

} // verus!
