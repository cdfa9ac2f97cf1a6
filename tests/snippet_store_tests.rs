use sniplias::snippet::Snippet;
use sniplias::snippet_store::{document_is_blank, SnippetStore, SnippetStoreError};

fn snip(title: &str, command: &str) -> Snippet {
    Snippet::new(title.to_string(), command.to_string())
}

#[test]
fn blank_documents() {
    assert!(document_is_blank(""));
    assert!(document_is_blank(" \n\t \u{3000}"));
    assert!(!document_is_blank(" {\"snippets\": []} "));
}

#[test]
fn load_keeps_last_record_per_id() {
    let a = snip("a", "1");
    let b = snip("b", "2").with_id(a.id);
    let c = snip("c", "3");
    let mut s = SnippetStore::new("data.json".to_string());
    s.load(vec![a, c.clone(), b]);
    let titles: Vec<&str> = s.list().iter().map(|x| x.title.as_str()).collect();
    assert_eq!(titles, vec!["b", "c"]);
}

#[test]
fn update_keeps_id() {
    let a = snip("a", "1");
    let id = a.id;
    let mut s = SnippetStore::new("d".to_string());
    s.add(a);
    s.update(id, snip("new", "2")).unwrap();
    let got = s.get(id).unwrap();
    assert_eq!(got.title, "new");
    assert_eq!(got.id, id);
    assert_eq!(s.list().len(), 1);
}

#[test]
fn missing_id_errors_name_the_id() {
    let mut s = SnippetStore::new("d".to_string());
    let id: u128 = 0x0123_4567_89ab_cdef_0123_4567_89ab_cdef;
    let err = s.delete(id).unwrap_err();
    assert_eq!(
        err,
        SnippetStoreError::SnippetNotFound("01234567-89ab-cdef-0123-456789abcdef".to_string())
    );
    assert_eq!(
        err.message(),
        "Snippet not found: 01234567-89ab-cdef-0123-456789abcdef"
    );
    assert!(s.update(id, snip("x", "y")).is_err());
    assert!(s.get(id).is_none());
}

#[test]
fn delete_removes_from_list() {
    let a = snip("a", "1");
    let id = a.id;
    let mut s = SnippetStore::new("d".to_string());
    s.add(a);
    s.add(snip("b", "2"));
    s.delete(id).unwrap();
    assert!(s.list().iter().all(|x| x.id != id));
    assert_eq!(s.list().len(), 1);
}

#[test]
fn snippet_search() {
    let mut s = SnippetStore::new("d".to_string());
    s.add(snip("Deploy", "kubectl apply"));
    s.add(snip("x", "echo FOO").with_description("y".to_string()));
    s.add(snip("z", "ls").with_description("about foo".to_string()));
    let found: Vec<&str> = s.list_filtered("foo").iter().map(|x| x.title.as_str()).collect();
    assert_eq!(found, vec!["x", "z"]);
    assert_eq!(s.list_filtered("").len(), 3);
    assert_eq!(s.data_path(), "d");
}
