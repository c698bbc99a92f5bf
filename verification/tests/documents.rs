use oxeye::lexer::tokenize;
use oxeye::store::DocStore;
use oxeye::Error;

fn uri(s: &str) -> Vec<u8> {
    s.as_bytes().to_vec()
}

#[test]
fn open_then_get() {
    let mut store = DocStore::new();
    assert_eq!(store.doc_count(), 0);
    store.open(uri("file:///a"), b"fn".to_vec()).unwrap();
    assert_eq!(store.doc_count(), 1);
    let d = store.get(&uri("file:///a")).unwrap();
    assert_eq!(d.version(), 1);
    assert_eq!(d.text(), &b"fn".to_vec());
    assert!(store.get(&uri("file:///b")).is_none());
}

#[test]
fn full_changes_set_last_text_and_count_versions() {
    let mut store = DocStore::new();
    store.open(uri("u"), b"one".to_vec()).unwrap();
    let v2 = store.apply_full_change(&uri("u"), b"two".to_vec()).unwrap();
    let v3 = store.apply_full_change(&uri("u"), b"three".to_vec()).unwrap();
    let v4 = store.apply_full_change(&uri("u"), b"four".to_vec()).unwrap();
    assert_eq!((v2, v3, v4), (2, 3, 4));
    let d = store.get(&uri("u")).unwrap();
    assert_eq!(d.version(), 4);
    assert_eq!(d.text(), &b"four".to_vec());
}

#[test]
fn full_change_on_unknown_uri_fails() {
    let mut store = DocStore::new();
    assert_eq!(
        store.apply_full_change(&uri("nope"), b"x".to_vec()),
        Err(Error::NotFound)
    );
}

#[test]
fn incremental_change_splices() {
    let mut store = DocStore::new();
    store.open(uri("u"), b"fn f() { jet::je }".to_vec()).unwrap();
    let v = store
        .apply_incremental_change(&uri("u"), 14, 16, &b"sh".to_vec())
        .unwrap();
    assert_eq!(v, 2);
    let d = store.get(&uri("u")).unwrap();
    assert_eq!(d.text(), &b"fn f() { jet::sh }".to_vec());
}

#[test]
fn incremental_insert_and_delete() {
    let mut store = DocStore::new();
    store.open(uri("u"), b"ab".to_vec()).unwrap();
    store
        .apply_incremental_change(&uri("u"), 1, 1, &b"XY".to_vec())
        .unwrap();
    assert_eq!(store.get(&uri("u")).unwrap().text(), &b"aXYb".to_vec());
    store
        .apply_incremental_change(&uri("u"), 0, 3, &Vec::new())
        .unwrap();
    assert_eq!(store.get(&uri("u")).unwrap().text(), &b"b".to_vec());
}

#[test]
fn incremental_change_rejects_bad_ranges() {
    let mut store = DocStore::new();
    store.open(uri("u"), b"abc".to_vec()).unwrap();
    assert_eq!(
        store.apply_incremental_change(&uri("u"), 2, 1, &b"x".to_vec()),
        Err(Error::InvalidRange)
    );
    assert_eq!(
        store.apply_incremental_change(&uri("u"), 0, 4, &b"x".to_vec()),
        Err(Error::InvalidRange)
    );
    assert_eq!(
        store.apply_incremental_change(&uri("v"), 0, 1, &b"x".to_vec()),
        Err(Error::NotFound)
    );
    // the failed edits left the document untouched
    assert_eq!(store.get(&uri("u")).unwrap().text(), &b"abc".to_vec());
    assert_eq!(store.get(&uri("u")).unwrap().version(), 1);
}

#[test]
fn incremental_retokenization_matches_full() {
    let mut store = DocStore::new();
    store.open(uri("u"), b"fn f() { jet::je }".to_vec()).unwrap();
    store
        .apply_incremental_change(&uri("u"), 14, 16, &b"sha_256".to_vec())
        .unwrap();
    let incremental = store.doc_tokens(&uri("u")).unwrap();
    let from_scratch = tokenize(&b"fn f() { jet::sha_256 }".to_vec());
    assert_eq!(incremental, from_scratch);
}

#[test]
fn reopen_fails_until_closed() {
    let mut store = DocStore::new();
    store.open(uri("u"), b"a".to_vec()).unwrap();
    assert_eq!(store.open(uri("u"), b"b".to_vec()), Err(Error::AlreadyOpen));
    // the failed open did not clobber the text
    assert_eq!(store.get(&uri("u")).unwrap().text(), &b"a".to_vec());
    store.close(&uri("u")).unwrap();
    store.open(uri("u"), b"b".to_vec()).unwrap();
    assert_eq!(store.get(&uri("u")).unwrap().text(), &b"b".to_vec());
    assert_eq!(store.get(&uri("u")).unwrap().version(), 1);
}

#[test]
fn close_unopened_fails() {
    let mut store = DocStore::new();
    assert_eq!(store.close(&uri("never")), Err(Error::NotFound));
    store.open(uri("u"), b"a".to_vec()).unwrap();
    store.close(&uri("u")).unwrap();
    assert_eq!(store.close(&uri("u")), Err(Error::NotFound));
}

#[test]
fn documents_are_independent() {
    let mut store = DocStore::new();
    store.open(uri("a"), b"one".to_vec()).unwrap();
    store.open(uri("b"), b"two".to_vec()).unwrap();
    store.apply_full_change(&uri("a"), b"ONE".to_vec()).unwrap();
    assert_eq!(store.get(&uri("a")).unwrap().text(), &b"ONE".to_vec());
    assert_eq!(store.get(&uri("b")).unwrap().text(), &b"two".to_vec());
    store.close(&uri("a")).unwrap();
    assert!(store.get(&uri("a")).is_none());
    assert_eq!(store.get(&uri("b")).unwrap().text(), &b"two".to_vec());
}
