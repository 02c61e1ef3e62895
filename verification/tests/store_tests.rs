use archive_replicator::index::PathIndex;
use archive_replicator::store::{
    dir_size, path_to_tag, BlobStore, FileTree, StoreError, BLOBS_DIR, GC_INTERVAL_SECS,
};

fn empty_store() -> BlobStore {
    BlobStore::open(PathIndex::new()).0
}

#[test]
fn tags_are_made_of_paths() {
    assert_eq!(path_to_tag("nz/wgn/2026/03/05/readings.parquet"), "path:nz:wgn:2026:03:05:readings.parquet");
    assert_eq!(path_to_tag("_sync/index.json"), "path:_sync:index.json");
    assert_eq!(path_to_tag(""), "path:");
    assert!(!path_to_tag("a/b/c").contains('/'));
}

#[test]
fn tags_tell_paths_without_colons_apart() {
    assert_ne!(path_to_tag("a/b"), path_to_tag("a/c"));
    assert_eq!(path_to_tag("a/b"), path_to_tag("a:b"));
}

#[test]
fn a_store_collects_untagged_blobs_every_ten_minutes() {
    let (store, settings) = BlobStore::open(PathIndex::new());
    assert_eq!(store.blob_count(), 0);
    assert_eq!(settings.directory, "blobs");
    assert_eq!(settings.directory, BLOBS_DIR);
    assert_eq!(settings.gc_interval_secs, 600);
    assert_eq!(settings.gc_interval_secs, GC_INTERVAL_SECS);
}

#[test]
fn imports_say_how_a_blob_is_stored() {
    let plan = empty_store().import("a/b", b"hello");
    assert_eq!(plan.tag, "path:a:b");
    assert_eq!(plan.size, 5);
}

#[test]
fn imported_blobs_are_found() {
    let mut store = empty_store();
    let hash = *blake3::hash(b"hello").as_bytes();
    let text = store.finish_import("a/b", 5, Some(hash), true).unwrap();
    assert_eq!(text, blake3::hash(b"hello").to_hex().to_string());
    assert!(store.contains("a/b"));
    assert!(!store.contains("a"));
    assert_eq!(store.get("a/b"), Ok(Some(hash)));
    assert_eq!(store.get("other"), Ok(None));
    assert_eq!(store.get_by_hash(&text), Ok(hash));
    assert_eq!(store.blob_count(), 1);
    assert_eq!(store.index().get("a/b").unwrap().size, 5);
}

#[test]
fn imports_take_the_place_of_earlier_ones() {
    let mut store = empty_store();
    store.finish_import("_sync/index.json", 1, Some([1u8; 32]), true).unwrap();
    store.finish_import("other", 3, Some([3u8; 32]), true).unwrap();
    store.finish_import("_sync/index.json", 2, Some([2u8; 32]), true).unwrap();
    assert_eq!(store.blob_count(), 2);
    assert_eq!(store.get("_sync/index.json"), Ok(Some([2u8; 32])));
    assert_eq!(store.index().get("_sync/index.json").unwrap().size, 2);
    assert_eq!(store.get("other"), Ok(Some([3u8; 32])));
}

#[test]
fn failed_imports_change_nothing() {
    let mut store = empty_store();
    assert_eq!(store.finish_import("a", 1, None, true), Err(StoreError::ImportFailed));
    assert_eq!(store.finish_import("a", 1, None, false), Err(StoreError::ImportFailed));
    assert_eq!(store.finish_import("a", 1, Some([1u8; 32]), false), Err(StoreError::IndexFailed));
    assert!(!store.contains("a"));
    assert_eq!(store.blob_count(), 0);
}

#[test]
fn downloaded_blobs_are_registered() {
    let mut store = empty_store();
    let text = "0b".repeat(32);
    assert_eq!(store.register_downloaded("nz/a", &text, 7, true), Ok(()));
    assert_eq!(store.get("nz/a"), Ok(Some([0x0bu8; 32])));
    assert_eq!(store.index().get("nz/a").unwrap().size, 7);
    assert_eq!(store.index().get("nz/a").unwrap().hash, text);
    assert_eq!(store.register_downloaded("nz/b", &text, 7, false), Err(StoreError::IndexFailed));
    assert!(!store.contains("nz/b"));
}

#[test]
fn invalid_hashes_are_refused() {
    let mut store = empty_store();
    store.register_downloaded("bad", "no hash", 1, true).unwrap();
    assert_eq!(store.get("bad"), Err(StoreError::InvalidHashInIndex));
    assert!(store.contains("bad"));
    assert_eq!(store.get_by_hash("no hash"), Err(StoreError::InvalidHash));
}

#[test]
fn unreadable_blobs_are_delivered_as_nothing() {
    assert_eq!(BlobStore::deliver::<&str, ()>(Ok("bytes")), Some("bytes"));
    assert_eq!(BlobStore::deliver::<&str, ()>(Err(())), None);
}

#[test]
fn file_sizes_are_summed_at_any_depth() {
    let tree = vec![
        FileTree::File(10),
        FileTree::Other,
        FileTree::Directory(vec![
            FileTree::File(5),
            FileTree::Directory(vec![FileTree::File(1), FileTree::Directory(vec![])]),
        ]),
        FileTree::File(0),
    ];
    assert_eq!(dir_size(&tree), Some(16));
    assert_eq!(dir_size(&vec![]), Some(0));
    assert_eq!(empty_store().total_bytes(&tree), 16);
}

#[test]
fn sums_that_do_not_fit_count_as_zero() {
    let full = vec![FileTree::File(u64::MAX)];
    assert_eq!(dir_size(&full), Some(u64::MAX));
    assert_eq!(empty_store().total_bytes(&full), u64::MAX);
    let over = vec![FileTree::File(u64::MAX), FileTree::Directory(vec![FileTree::File(1)])];
    assert_eq!(dir_size(&over), None);
    assert_eq!(empty_store().total_bytes(&over), 0);
}

#[test]
fn the_index_keeps_one_entry_a_path() {
    let mut index = PathIndex::new();
    assert_eq!(index.len(), 0);
    assert!(index.get("a").is_none());
    index.insert("a", "1".to_string(), 1);
    index.insert("b", "2".to_string(), 2);
    index.insert("a", "3".to_string(), 3);
    assert_eq!(index.len(), 2);
    assert!(index.contains("a"));
    assert!(!index.contains("c"));
    assert_eq!(index.get("a").unwrap().hash, "3");
    let mut all: Vec<(String, String, u64)> = index
        .dump()
        .into_iter()
        .map(|archive| (archive.path, archive.entry.hash, archive.entry.size))
        .collect();
    all.sort();
    assert_eq!(
        all,
        vec![("a".to_string(), "3".to_string(), 3), ("b".to_string(), "2".to_string(), 2)]
    );
}
