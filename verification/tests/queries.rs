use oxeye::engine::{complete, hover, Candidate};
use oxeye::store::DocStore;
use oxeye::symbols::{Catalog, Category};
use oxeye::Error;

fn uri(s: &str) -> Vec<u8> {
    s.as_bytes().to_vec()
}

fn names(cat: &Catalog, cands: &[Candidate]) -> Vec<String> {
    cands
        .iter()
        .map(|c| String::from_utf8(cat.get(c.sym).name.clone()).unwrap())
        .collect()
}

fn open_one(text: &[u8]) -> DocStore {
    let mut store = DocStore::new();
    store.open(uri("doc"), text.to_vec()).unwrap();
    store
}

#[test]
fn catalog_lookup_and_categories() {
    let cat = Catalog::new();
    assert_eq!(cat.len(), 73);
    let s = cat.lookup_by_name(&b"fn".to_vec()).unwrap();
    assert_eq!(s.category, Category::Keyword);
    assert_eq!(s.description, b"function keyword".to_vec());
    let j = cat.lookup_by_name(&b"jet::eq_256".to_vec()).unwrap();
    assert_eq!(j.category, Category::JetFunction);
    assert!(cat.lookup_by_name(&b"no_such_symbol".to_vec()).is_none());

    let kw = cat.all_in_category(Category::Keyword);
    let kw_names: Vec<String> = kw
        .iter()
        .map(|&i| String::from_utf8(cat.get(i).name.clone()).unwrap())
        .collect();
    // insertion order, not alphabetical
    assert_eq!(kw_names, vec!["const", "fn", "let", "mod", "match"]);
}

#[test]
fn catalog_prefix_search_is_sorted() {
    let cat = Catalog::new();
    let hits = cat.prefix_search(&b"jet::eq".to_vec());
    assert_eq!(
        names(&cat, &hits),
        vec![
            "jet::eq_128",
            "jet::eq_16",
            "jet::eq_256",
            "jet::eq_32",
            "jet::eq_64",
            "jet::eq_8",
        ]
    );
    let hits = cat.prefix_search(&b"u2".to_vec());
    assert_eq!(names(&cat, &hits), vec!["u256"]);
    assert!(cat.prefix_search(&b"zzz".to_vec()).is_empty());
}

#[test]
fn complete_after_jet_namespace_filters_to_jets() {
    let cat = Catalog::new();
    let store = open_one(b"fn f() { jet::sh }");
    // cursor right after the typed "sh"
    let cands = complete(&store, &cat, &uri("doc"), 16).unwrap();
    assert_eq!(
        names(&cat, &cands),
        vec![
            "jet::sha_256_ctx_8_add_32",
            "jet::sha_256_ctx_8_finalize",
            "jet::sha_256_ctx_8_init",
            "jet::shift_left_256",
            "jet::shift_right_256",
        ]
    );
    for c in &cands {
        assert_eq!(cat.get(c.sym).category, Category::JetFunction);
    }
}

#[test]
fn complete_after_jet_namespace_with_unmatched_prefix_is_empty() {
    let cat = Catalog::new();
    let store = open_one(b"fn f() { jet::je }");
    // no jet function's local name starts with "je": empty, not an error
    let cands = complete(&store, &cat, &uri("doc"), 16).unwrap();
    assert!(cands.is_empty());
}

#[test]
fn complete_at_statement_start_offers_keywords_first() {
    let cat = Catalog::new();
    let store = open_one(b"{ }");
    let cands = complete(&store, &cat, &uri("doc"), 1).unwrap();
    let ns = names(&cat, &cands);
    // keywords, then snippets, then common identifiers; no types, no jets
    assert_eq!(
        ns,
        vec![
            "const", "fn", "let", "match", "mod", // keywords
            "-> ()", "-> bool", "-> u256", "assert!", "param::", "witness::", // snippets
            "amount", "hash", "main", "preimage", "pubkey", "signature", "timeout",
        ]
    );
    for c in &cands {
        let k = cat.get(c.sym).category;
        assert!(k != Category::TypeName && k != Category::JetFunction);
    }
}

#[test]
fn complete_with_prefix_filters_by_spelling() {
    let cat = Catalog::new();
    let store = open_one(b"{ ma }");
    // cursor right after "ma": keyword `match` and common identifier `main`
    let cands = complete(&store, &cat, &uri("doc"), 4).unwrap();
    assert_eq!(names(&cat, &cands), vec!["match", "main"]);
}

#[test]
fn complete_after_arrow_offers_types_only() {
    let cat = Catalog::new();
    let store = open_one(b"fn f() -> ");
    let cands = complete(&store, &cat, &uri("doc"), 10).unwrap();
    let ns = names(&cat, &cands);
    assert_eq!(ns.len(), 15);
    assert_eq!(ns[0], "Ctx8");
    assert_eq!(
        &ns[ns.len() - 6..],
        &["u128", "u16", "u256", "u32", "u64", "u8"]
    );
    for c in &cands {
        assert_eq!(cat.get(c.sym).category, Category::TypeName);
    }
}

#[test]
fn complete_inside_comment_is_suppressed() {
    let cat = Catalog::new();
    let store = open_one(b"// fn ");
    let cands = complete(&store, &cat, &uri("doc"), 4).unwrap();
    assert!(cands.is_empty());
}

#[test]
fn complete_in_value_position_excludes_keywords() {
    let cat = Catalog::new();
    let store = open_one(b"let x = y");
    // cursor right after "y": a value position with prefix "y" -> nothing
    let cands = complete(&store, &cat, &uri("doc"), 9).unwrap();
    assert!(cands.is_empty());
    // empty prefix after "=": everything but keywords
    let cands = complete(&store, &cat, &uri("doc"), 8).unwrap();
    assert!(!cands.is_empty());
    for c in &cands {
        assert!(cat.get(c.sym).category != Category::Keyword);
    }
}

#[test]
fn complete_is_idempotent() {
    let cat = Catalog::new();
    let store = open_one(b"fn f() { jet::sh }");
    let first = complete(&store, &cat, &uri("doc"), 16).unwrap();
    let second = complete(&store, &cat, &uri("doc"), 16).unwrap();
    assert_eq!(first, second);
}

#[test]
fn complete_errors() {
    let cat = Catalog::new();
    let store = open_one(b"fn");
    assert_eq!(
        complete(&store, &cat, &uri("other"), 0),
        Err(Error::NotFound)
    );
    assert_eq!(
        complete(&store, &cat, &uri("doc"), 3),
        Err(Error::MalformedInput)
    );
}

#[test]
fn hover_keyword_and_literal() {
    let cat = Catalog::new();
    let store = open_one(b"fn f() { 42 }");
    let h = hover(&store, &cat, &uri("doc"), 0).unwrap().unwrap();
    assert_eq!(h, b"function keyword".to_vec());
    // hovering the numeric literal is an ordinary miss
    assert_eq!(hover(&store, &cat, &uri("doc"), 9).unwrap(), None);
    // hovering the unknown identifier f is a miss too
    assert_eq!(hover(&store, &cat, &uri("doc"), 3).unwrap(), None);
}

#[test]
fn hover_qualified_jet_name() {
    let cat = Catalog::new();
    let store = open_one(b"jet::eq_256");
    let h = hover(&store, &cat, &uri("doc"), 7).unwrap().unwrap();
    assert_eq!(h, b"Compare two 256-bit values for equality".to_vec());
    // hovering the bare namespace word resolves nothing
    assert_eq!(hover(&store, &cat, &uri("doc"), 0).unwrap(), None);
}

#[test]
fn hover_common_identifier() {
    let cat = Catalog::new();
    let store = open_one(b"let pubkey = w");
    let h = hover(&store, &cat, &uri("doc"), 5).unwrap().unwrap();
    assert_eq!(h, b"Public key variable".to_vec());
}

#[test]
fn queries_after_close_fail_with_not_found() {
    let cat = Catalog::new();
    let mut store = DocStore::new();
    store.open(uri("doc"), b"fn".to_vec()).unwrap();
    store.close(&uri("doc")).unwrap();
    assert_eq!(complete(&store, &cat, &uri("doc"), 0), Err(Error::NotFound));
    assert_eq!(hover(&store, &cat, &uri("doc"), 0), Err(Error::NotFound));
}

#[test]
fn candidate_rank_follows_category_priority() {
    let cat = Catalog::new();
    let store = open_one(b"{ ma }");
    let cands = complete(&store, &cat, &uri("doc"), 4).unwrap();
    // `match` is a keyword (priority 0 -> rank 5), `main` a common
    // identifier (priority 5 -> rank 0)
    assert_eq!(cands[0].rank, 5);
    assert_eq!(cands[1].rank, 0);
}

#[test]
fn capabilities_are_fixed() {
    let c = oxeye::capabilities();
    assert!(c.full_document_sync && c.hover_provider && c.completion_provider);
    assert!(!c.completion_resolve);
    assert_eq!(c.completion_trigger, b'.');
    assert_eq!(oxeye::server_name(), "Oxeye Language Server");
    assert_eq!(oxeye::server_version(), "0.1.0");
}

#[test]
fn complete_in_empty_document_offers_statement_starters() {
    let cat = Catalog::new();
    let store = open_one(b"");
    let cands = complete(&store, &cat, &uri("doc"), 0).unwrap();
    let ns = names(&cat, &cands);
    assert_eq!(ns[0], "const");
    assert_eq!(ns.len(), 18);
}

#[test]
fn hover_at_end_of_text_is_a_miss() {
    let cat = Catalog::new();
    let store = open_one(b"fn");
    // the cursor sits past the last character: nothing is under it
    assert_eq!(hover(&store, &cat, &uri("doc"), 2).unwrap(), None);
    // one byte further is no longer a valid offset
    assert_eq!(
        hover(&store, &cat, &uri("doc"), 3),
        Err(Error::MalformedInput)
    );
}
