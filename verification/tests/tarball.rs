use pacquet_core::cafs::locate;
use pacquet_core::index::{ExtractionIndex, IndexEntry};
use pacquet_core::integrity::{check_body, integrity_of, verify_integrity, IntegrityError};
use pacquet_core::tarball::{
    accept_body, clean_entry_name, BlobWrite, EntryKind, TarEntry, TarballError,
};
use pacquet_core::tarball_cache::{CacheValue, Decision, TarballCache};

const HELLO_WORLD_SRI: &str = "sha512-MJ7MSJwS1utMxA9QyQLytNDtd+5RGnx6m808qG1M2G+YndNbxf9JlnDaNCVbRbDP2DDoH2Bdz33FVC6TrpzXbw==";
const EMPTY_SRI: &str = "sha512-z4PhNX7vuL3xVChQ1m2AB9Yg5AULVxXcg/SpIdNs6c5H0NE8XYXysP+DGNKHfuwvY7kxvUdBeoGlODJ6+SfaPg==";

fn file(path: &str, content: &[u8]) -> TarEntry {
    TarEntry { path: path.to_string(), kind: EntryKind::Regular, content: content.to_vec() }
}

fn other(path: &str, kind: EntryKind) -> TarEntry {
    TarEntry { path: path.to_string(), kind, content: Vec::new() }
}

#[test]
fn integrity_of_known_bodies() {
    assert_eq!(integrity_of(&b"hello world".to_vec()), HELLO_WORLD_SRI);
    assert_eq!(integrity_of(&Vec::new()), EMPTY_SRI);
}

#[test]
fn a_body_with_the_expected_integrity_is_accepted() {
    assert_eq!(check_body(HELLO_WORLD_SRI, &b"hello world".to_vec()), Ok(()));
    let verified = accept_body(HELLO_WORLD_SRI, &b"hello world".to_vec()).unwrap();
    assert_eq!(verified.integrity_text(), HELLO_WORLD_SRI);
    let body = vec![7u8; 1000];
    assert_eq!(check_body(&integrity_of(&body), &body), Ok(()));
}

#[test]
fn a_body_changed_in_transit_is_refused() {
    let expected = IntegrityError::Mismatch {
        expected: HELLO_WORLD_SRI.to_string(),
        actual: integrity_of(&b"hello world!".to_vec()),
    };
    assert_eq!(check_body(HELLO_WORLD_SRI, &b"hello world!".to_vec()), Err(expected.clone()));
    assert_eq!(accept_body(HELLO_WORLD_SRI, &b"hello world!".to_vec()), Err(expected));
    assert_eq!(
        check_body(HELLO_WORLD_SRI, &Vec::new()),
        Err(IntegrityError::Mismatch {
            expected: HELLO_WORLD_SRI.to_string(),
            actual: EMPTY_SRI.to_string(),
        })
    );
}

#[test]
fn other_algorithms_are_refused() {
    assert_eq!(
        check_body("sha1-Kq5sNclPz7QV2+lfQIuc6R7oRu0=", &b"hello world".to_vec()),
        Err(IntegrityError::UnsupportedAlgorithm { algorithm: "sha1".to_string() })
    );
    assert_eq!(
        verify_integrity("sha256-abc", "sha256-abc"),
        Err(IntegrityError::UnsupportedAlgorithm { algorithm: "sha256".to_string() })
    );
    assert_eq!(
        verify_integrity("garbage", "sha512-abc"),
        Err(IntegrityError::UnsupportedAlgorithm { algorithm: "garbage".to_string() })
    );
    assert_eq!(
        verify_integrity("", "sha512-abc"),
        Err(IntegrityError::UnsupportedAlgorithm { algorithm: String::new() })
    );
    assert_eq!(
        verify_integrity("SHA512-abc", "SHA512-abc"),
        Err(IntegrityError::UnsupportedAlgorithm { algorithm: "SHA512".to_string() })
    );
}

#[test]
fn verify_compares_the_whole_text() {
    assert_eq!(verify_integrity("sha512-abc", "sha512-abc"), Ok(()));
    assert_eq!(
        verify_integrity("sha512-abc", "sha512-abd"),
        Err(IntegrityError::Mismatch {
            expected: "sha512-abc".to_string(),
            actual: "sha512-abd".to_string(),
        })
    );
    assert_eq!(
        verify_integrity("sha512-a-b", "sha512-a"),
        Err(IntegrityError::Mismatch {
            expected: "sha512-a-b".to_string(),
            actual: "sha512-a".to_string(),
        })
    );
}

#[test]
fn cleaned_names_lose_their_first_component() {
    assert_eq!(clean_entry_name("package/index.js"), "index.js");
    assert_eq!(clean_entry_name("package/lib/a/b.js"), "lib/a/b.js");
    assert_eq!(clean_entry_name("other-root/package.json"), "package.json");
    assert_eq!(clean_entry_name("package/"), "");
    assert_eq!(clean_entry_name("package"), "");
    assert_eq!(clean_entry_name(""), "");
    assert_eq!(clean_entry_name("/a"), "a");
}

#[test]
fn extraction_records_regular_files_only() {
    let verified = accept_body(EMPTY_SRI, &Vec::new()).unwrap();
    let entries = vec![
        other("package", EntryKind::Directory),
        file("package/package.json", b"{}"),
        other("package/link", EntryKind::Symlink),
        file("package/lib/index.js", b"hello world"),
        other("package/hard", EntryKind::Hardlink),
        other("package/fifo", EntryKind::Other),
    ];
    let extraction = verified.extract("/store", &entries);
    let json = locate("/store", &b"{}".to_vec());
    let js = locate("/store", &b"hello world".to_vec());
    assert_eq!(
        extraction.index.entries(),
        &vec![
            IndexEntry { name: "package.json".to_string(), cas_path: json.file_path.clone() },
            IndexEntry { name: "lib/index.js".to_string(), cas_path: js.file_path.clone() },
        ]
    );
    assert_eq!(
        extraction.writes,
        vec![BlobWrite { entry: 1, location: json }, BlobWrite { entry: 3, location: js }]
    );
    assert_eq!(extraction.index.len(), 2);
}

#[test]
fn extraction_of_nothing_is_empty() {
    let verified = accept_body(EMPTY_SRI, &Vec::new()).unwrap();
    let extraction = verified.extract("/store", &Vec::new());
    assert_eq!(extraction.index, ExtractionIndex::new());
    assert!(extraction.writes.is_empty());
}

#[test]
fn a_later_file_of_the_same_name_wins() {
    let verified = accept_body(EMPTY_SRI, &Vec::new()).unwrap();
    let entries = vec![
        file("package/a.js", b"one"),
        file("package/b.js", b"two"),
        file("package/a.js", b"three"),
    ];
    let extraction = verified.extract("/store", &entries);
    assert_eq!(extraction.index.len(), 2);
    assert_eq!(extraction.writes.len(), 3);
    assert_eq!(
        extraction.index.get("a.js"),
        Some(&locate("/store", &b"three".to_vec()).file_path)
    );
    assert_eq!(extraction.index.entries()[0].name, "a.js");
    assert_eq!(extraction.index.entries()[1].name, "b.js");
}

#[test]
fn index_insert_and_get() {
    let mut index = ExtractionIndex::new();
    assert_eq!(index.len(), 0);
    assert_eq!(index.get("a"), None);
    index.insert("a".to_string(), "/store/1".to_string());
    index.insert("b".to_string(), "/store/2".to_string());
    assert_eq!(index.get("a"), Some(&"/store/1".to_string()));
    assert_eq!(index.get("b"), Some(&"/store/2".to_string()));
    assert_eq!(index.get("c"), None);
    index.insert("a".to_string(), "/store/3".to_string());
    assert_eq!(index.len(), 2);
    assert_eq!(index.get("a"), Some(&"/store/3".to_string()));
    assert_eq!(index.entries()[0].name, "a");
}

fn sample_index(path: &str) -> ExtractionIndex {
    let mut index = ExtractionIndex::new();
    index.insert("package.json".to_string(), path.to_string());
    index
}

#[test]
fn only_the_first_caller_starts_the_work() {
    let mut cache = TarballCache::new();
    let mut starts = 0;
    for _ in 0..16 {
        if cache.request("sha512-key") == Decision::Start {
            starts += 1;
        }
    }
    assert_eq!(starts, 1);
    assert_eq!(cache.get("sha512-key"), Some(&CacheValue::InProgress));
    assert_eq!(cache.request("sha512-other"), Decision::Start);
    assert_eq!(cache.request("sha512-key"), Decision::Wait);
}

#[test]
fn all_callers_see_the_same_index() {
    let mut cache = TarballCache::new();
    assert_eq!(cache.get("k"), None);
    assert_eq!(cache.request("k"), Decision::Start);
    assert_eq!(cache.request("k"), Decision::Wait);
    cache.complete("k", Ok(sample_index("/store/aa/bb")));
    for _ in 0..3 {
        assert_eq!(cache.request("k"), Decision::Ready);
        assert_eq!(cache.get("k"), Some(&CacheValue::Available(sample_index("/store/aa/bb"))));
    }
    cache.complete("k", Ok(sample_index("/store/cc/dd")));
    cache.complete("k", Err(TarballError::Extract { message: "late".to_string() }));
    assert_eq!(cache.get("k"), Some(&CacheValue::Available(sample_index("/store/aa/bb"))));
}

#[test]
fn a_failed_key_stays_failed() {
    let mut cache = TarballCache::new();
    let error = TarballError::Integrity(IntegrityError::Mismatch {
        expected: "sha512-a".to_string(),
        actual: "sha512-b".to_string(),
    });
    assert_eq!(cache.request("k"), Decision::Start);
    cache.complete("k", Err(error.clone()));
    assert_eq!(cache.request("k"), Decision::Poisoned);
    assert_eq!(cache.request("k"), Decision::Poisoned);
    cache.complete("k", Ok(sample_index("/store/aa/bb")));
    assert_eq!(cache.get("k"), Some(&CacheValue::Failed(error)));
}

#[test]
fn an_outcome_for_an_unknown_key_is_dropped() {
    let mut cache = TarballCache::new();
    cache.complete("k", Ok(sample_index("/store/aa/bb")));
    assert_eq!(cache.get("k"), None);
    assert_eq!(cache.request("k"), Decision::Start);
}
