use zknotes::errors::{ApiError, StoreError};
use zknotes::repo::{Adapter, Op, Verb};

fn bv(s: &str) -> Vec<u8> {
    s.as_bytes().to_vec()
}

#[test]
fn scenario_create_patch_delete_records_three_commits() {
    let mut repo = Adapter::new();
    let path = bv("/notes/a.md");

    assert!(repo.apply(&path, Op::Create(bv("hello")), true).is_ok());
    assert_eq!(repo.history_len(), 1);
    assert_eq!(repo.commit_verb(0), Verb::Create);
    assert_eq!(repo.commit_path(0), &path);
    assert_eq!(repo.commit_summary(0), bv("create /notes/a.md"));
    assert_eq!(repo.read(&path).unwrap(), bv("hello"));

    assert!(repo.apply(&path, Op::Patch(5, bv(" world")), true).is_ok());
    assert_eq!(repo.read(&path).unwrap(), bv("hello world"));
    assert_eq!(repo.history_len(), 2);
    assert_eq!(repo.commit_verb(1), Verb::Patch);

    assert!(repo.apply(&path, Op::Delete, true).is_ok());
    assert_eq!(repo.read(&path).err(), Some(StoreError::NotFound));
    assert_eq!(repo.history_len(), 3);
    assert_eq!(repo.commit_verb(2), Verb::Delete);
    assert_eq!(repo.commit_path(2), &path);
    assert_eq!(repo.commit_summary(1), bv("patch /notes/a.md"));
    assert_eq!(repo.commit_summary(2), bv("delete /notes/a.md"));
}

#[test]
fn two_creates_append_two_commits_in_order() {
    let mut repo = Adapter::new();
    let p1 = bv("notes/a.md");
    let p2 = bv("notes/b.md");
    assert!(repo.apply(&p1, Op::Create(bv("one")), true).is_ok());
    assert!(repo.apply(&p2, Op::Create(bv("two")), true).is_ok());
    assert_eq!(repo.history_len(), 2);
    assert_eq!(repo.commit_verb(0), Verb::Create);
    assert_eq!(repo.commit_path(0), &p1);
    assert_eq!(repo.commit_verb(1), Verb::Create);
    assert_eq!(repo.commit_path(1), &p2);
    assert_eq!(repo.read(&p1).unwrap(), bv("one"));
    assert_eq!(repo.read(&p2).unwrap(), bv("two"));
}

#[test]
fn store_error_records_no_commit() {
    let mut repo = Adapter::new();
    let path = bv("a.md");
    let r = repo.apply(&path, Op::Replace(bv("x")), true);
    assert_eq!(r.err(), Some(ApiError::Store(StoreError::NotFound)));
    assert_eq!(repo.history_len(), 0);
}

#[test]
fn traversal_is_refused_before_any_commit() {
    let mut repo = Adapter::new();
    let r = repo.apply(&bv("../secret"), Op::Create(bv("x")), true);
    assert_eq!(r.err(), Some(ApiError::Store(StoreError::PathEscapesRoot)));
    assert_eq!(repo.history_len(), 0);
}

#[test]
fn backend_refusal_is_reported_as_commit_failed() {
    let mut repo = Adapter::new();
    let path = bv("a.md");
    let r = repo.apply(&path, Op::Create(bv("hello")), false);
    assert_eq!(r.err(), Some(ApiError::CommitFailed));
    // The mutation is durable, the history has not advanced: divergence is
    // visible, not masked.
    assert_eq!(repo.read(&path).unwrap(), bv("hello"));
    assert_eq!(repo.history_len(), 0);
}

#[test]
fn plan_names_the_bytes_a_backend_must_write() {
    let mut repo = Adapter::new();
    assert_eq!(repo.plan(&bv("a.md"), &Op::Create(bv("hello"))).unwrap(), Some(bv("hello")));
    assert!(repo.apply(&bv("a.md"), Op::Create(bv("hello")), true).is_ok());
    assert_eq!(
        repo.plan(&bv("a.md"), &Op::Create(bv("again"))).err(),
        Some(StoreError::AlreadyExists)
    );
    assert_eq!(
        repo.plan(&bv("a.md"), &Op::Patch(5, bv(" world"))).unwrap(),
        Some(bv("hello world"))
    );
    assert_eq!(
        repo.plan(&bv("a.md"), &Op::Patch(9, bv("!"))).err(),
        Some(StoreError::PatchConflict)
    );
    assert_eq!(repo.plan(&bv("a.md"), &Op::Delete).unwrap(), None);
    assert_eq!(repo.plan(&bv("../x"), &Op::Delete).err(), Some(StoreError::PathEscapesRoot));
    // planning changed nothing
    assert_eq!(repo.read(&bv("a.md")).unwrap(), bv("hello"));
    assert_eq!(repo.history_len(), 1);
}

#[test]
fn replace_and_patch_record_their_verbs() {
    let mut repo = Adapter::new();
    let path = bv("a.md");
    assert!(repo.apply(&path, Op::Create(bv("v1")), true).is_ok());
    assert!(repo.apply(&path, Op::Replace(bv("v2")), true).is_ok());
    assert_eq!(repo.read(&path).unwrap(), bv("v2"));
    assert_eq!(repo.history_len(), 2);
    assert_eq!(repo.commit_verb(1), Verb::Replace);
}

#[test]
fn stale_patch_leaves_no_commit_and_no_change() {
    let mut repo = Adapter::new();
    let path = bv("a.md");
    assert!(repo.apply(&path, Op::Create(bv("hello")), true).is_ok());
    let r = repo.apply(&path, Op::Patch(3, bv("!")), true);
    assert_eq!(r.err(), Some(ApiError::Store(StoreError::PatchConflict)));
    assert_eq!(repo.read(&path).unwrap(), bv("hello"));
    assert_eq!(repo.history_len(), 1);
}
