use zknotes::errors::StoreError;
use zknotes::store::{check_path, DocStore};

fn bv(s: &str) -> Vec<u8> {
    s.as_bytes().to_vec()
}

#[test]
fn create_then_read() {
    let mut store = DocStore::new();
    assert!(store.create(&bv("notes/a.md"), bv("hello")).is_ok());
    assert_eq!(store.read(&bv("notes/a.md")).unwrap(), bv("hello"));
}

#[test]
fn read_missing_is_not_found() {
    let store = DocStore::new();
    assert_eq!(store.read(&bv("nope.md")).err(), Some(StoreError::NotFound));
}

#[test]
fn create_existing_fails_and_keeps_content() {
    let mut store = DocStore::new();
    assert!(store.create(&bv("a.md"), bv("first")).is_ok());
    let r = store.create(&bv("a.md"), bv("second"));
    assert_eq!(r.err(), Some(StoreError::AlreadyExists));
    assert_eq!(store.read(&bv("a.md")).unwrap(), bv("first"));
}

#[test]
fn replace_missing_is_not_found() {
    let mut store = DocStore::new();
    let r = store.replace(&bv("a.md"), bv("content"));
    assert_eq!(r.err(), Some(StoreError::NotFound));
    assert_eq!(store.read(&bv("a.md")).err(), Some(StoreError::NotFound));
}

#[test]
fn replace_overwrites_in_full() {
    let mut store = DocStore::new();
    assert!(store.create(&bv("a.md"), bv("first")).is_ok());
    assert!(store.replace(&bv("a.md"), bv("second")).is_ok());
    assert_eq!(store.read(&bv("a.md")).unwrap(), bv("second"));
}

#[test]
fn patch_appends_when_base_matches() {
    let mut store = DocStore::new();
    assert!(store.create(&bv("a.md"), bv("hello")).is_ok());
    assert!(store.patch(&bv("a.md"), 5, &bv(" world")).is_ok());
    assert_eq!(store.read(&bv("a.md")).unwrap(), bv("hello world"));
}

#[test]
fn patch_missing_is_not_found() {
    let mut store = DocStore::new();
    let r = store.patch(&bv("a.md"), 0, &bv("x"));
    assert_eq!(r.err(), Some(StoreError::NotFound));
}

#[test]
fn patch_against_stale_base_conflicts() {
    let mut store = DocStore::new();
    assert!(store.create(&bv("a.md"), bv("hello")).is_ok());
    let r = store.patch(&bv("a.md"), 4, &bv(" world"));
    assert_eq!(r.err(), Some(StoreError::PatchConflict));
    assert_eq!(store.read(&bv("a.md")).unwrap(), bv("hello"));
}

#[test]
fn delete_then_read_is_not_found() {
    let mut store = DocStore::new();
    assert!(store.create(&bv("a.md"), bv("hello")).is_ok());
    assert!(store.delete(&bv("a.md")).is_ok());
    assert_eq!(store.read(&bv("a.md")).err(), Some(StoreError::NotFound));
}

#[test]
fn delete_missing_is_not_found() {
    let mut store = DocStore::new();
    assert_eq!(store.delete(&bv("a.md")).err(), Some(StoreError::NotFound));
}

#[test]
fn traversal_paths_are_rejected_by_every_operation() {
    let mut store = DocStore::new();
    assert!(store.create(&bv("safe.md"), bv("keep")).is_ok());
    for p in ["../secret", "..", "a/../b", "notes/..", "../../etc/passwd"] {
        let path = bv(p);
        assert_eq!(
            store.read(&path).err(),
            Some(StoreError::PathEscapesRoot),
            "read accepted {}",
            p
        );
        assert_eq!(store.create(&path, bv("x")).err(), Some(StoreError::PathEscapesRoot));
        assert_eq!(store.replace(&path, bv("x")).err(), Some(StoreError::PathEscapesRoot));
        assert_eq!(store.patch(&path, 0, &bv("x")).err(), Some(StoreError::PathEscapesRoot));
        assert_eq!(store.delete(&path).err(), Some(StoreError::PathEscapesRoot));
    }
    assert_eq!(store.read(&bv("safe.md")).unwrap(), bv("keep"));
}

#[test]
fn empty_path_is_rejected() {
    let mut store = DocStore::new();
    let r = store.create(&Vec::new(), bv("x"));
    assert_eq!(r.err(), Some(StoreError::PathEscapesRoot));
}

#[test]
fn dots_inside_names_are_confined() {
    assert!(check_path(&bv("a..b")));
    assert!(check_path(&bv("..a")));
    assert!(check_path(&bv("a..")));
    assert!(check_path(&bv("notes/file.tar.gz")));
    assert!(check_path(&bv("/notes/a.md")));
    assert!(!check_path(&bv("/notes/../a.md")));
}

#[test]
fn documents_are_independent() {
    let mut store = DocStore::new();
    assert!(store.create(&bv("a.md"), bv("alpha")).is_ok());
    assert!(store.create(&bv("b.md"), bv("beta")).is_ok());
    assert!(store.delete(&bv("a.md")).is_ok());
    assert_eq!(store.read(&bv("b.md")).unwrap(), bv("beta"));
}
