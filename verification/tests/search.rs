use vecstore::double::Double;
use vecstore::json::{JsonNumber, JsonValue};
use vecstore::schemas::Document;
use vecstore::vectorstore::error::StoreError;
use vecstore::vectorstore::filters::{Filters, Scalar};
use vecstore::vectorstore::ingest::{IngestAction, IngestEvent};
use vecstore::vectorstore::options::VecStoreOptions;
use vecstore::vectorstore::pgvector::Store;
use vecstore::vectorstore::search::{SearchPlan, SearchRow};
use vecstore::vectorstore::sql::{SEARCH_ALL, SEARCH_NEAREST};

fn search_store() -> Store<u8, ()> {
    Store::new(0u8, (), "travel", "c0ffee", "collection", "embedding", 2).unwrap()
}

fn distance(x: f64) -> Double {
    Double::from_bits(x.to_bits())
}

fn row(content: &str, namespace: &str, d: f64) -> SearchRow {
    SearchRow {
        content: content.to_string(),
        namespace: namespace.to_string(),
        metadata: Vec::new(),
        distance: distance(d),
    }
}

fn row_with(content: &str, namespace: &str, d: f64, key: &str, value: JsonValue) -> SearchRow {
    SearchRow {
        content: content.to_string(),
        namespace: namespace.to_string(),
        metadata: vec![(key.to_string(), value)],
        distance: distance(d),
    }
}

fn plan(namespace: &str, limit: usize) -> SearchPlan {
    SearchPlan {
        query: "q".to_string(),
        namespace: namespace.to_string(),
        limit,
        filters: Filters::Empty,
        score_threshold: Double::zero(),
    }
}

fn contents(docs: &[Document]) -> Vec<&str> {
    docs.iter().map(|d| d.page_content.as_str()).collect()
}

/// A backend for the tests: rows in a table, one transaction at a time, and
/// a search by cosine distance.
struct StubBackend {
    committed: Vec<(String, String, Vec<f64>, String)>,
    pending: Option<Vec<(String, String, Vec<f64>, String)>>,
    fail_insert_at: Option<usize>,
}

fn cosine_distance(a: &[f64], b: &[f64]) -> f64 {
    let dot: f64 = a.iter().zip(b.iter()).map(|(x, y)| x * y).sum();
    let na: f64 = a.iter().map(|x| x * x).sum::<f64>().sqrt();
    let nb: f64 = b.iter().map(|x| x * x).sum::<f64>().sqrt();
    1.0 - dot / (na * nb)
}

fn stub_search(backend: &StubBackend, query: &[f64], namespace: &str, limit: Option<usize>) -> Vec<SearchRow> {
    let mut found: Vec<SearchRow> = backend
        .committed
        .iter()
        .filter(|r| r.3 == namespace)
        .map(|r| row(&r.1, &r.3, cosine_distance(&r.2, query)))
        .collect();
    found.sort_by(|a, b| {
        f64::from_bits(a.distance.to_bits()).total_cmp(&f64::from_bits(b.distance.to_bits()))
    });
    if let Some(n) = limit {
        found.truncate(n);
    }
    found
}

fn stub_add(
    store: &Store<u8, ()>,
    backend: &mut StubBackend,
    docs: &[Document],
    embeddings: Vec<Vec<f64>>,
) -> Result<Vec<String>, StoreError> {
    let opt = VecStoreOptions::new();
    let mut machine = store.add_documents(docs, &opt)?;
    assert_eq!(machine.texts().len(), docs.len());
    let vectors: Vec<Vec<Double>> =
        embeddings.iter().map(|v| v.iter().map(|x| distance(*x)).collect()).collect();
    let mut event = IngestEvent::Embedded(vectors);
    loop {
        let (next, action) = machine.step(event);
        machine = next;
        event = match action {
            IngestAction::OpenTransaction => {
                backend.pending = Some(Vec::new());
                IngestEvent::TransactionOpened
            }
            IngestAction::Insert(i) => {
                if backend.fail_insert_at == Some(i) {
                    IngestEvent::BackendFailed("insert refused".to_string())
                } else {
                    let r = machine.row(i).unwrap();
                    let embedding: Vec<f64> =
                        r.embedding.iter().map(|s| f64::from_bits(s.to_bits())).collect();
                    backend.pending.as_mut().unwrap().push((
                        r.id.to_string(),
                        r.document_text.to_string(),
                        embedding,
                        r.namespace.to_string(),
                    ));
                    IngestEvent::RowInserted
                }
            }
            IngestAction::Commit => {
                let rows = backend.pending.take().unwrap();
                backend.committed.extend(rows);
                IngestEvent::Committed
            }
            IngestAction::Finish => return Ok(machine.into_ids()),
            IngestAction::Abort(error) => {
                backend.pending = None;
                return Err(error);
            }
        };
    }
}

#[test]
fn the_nearest_document_comes_back() {
    let store = search_store();
    let mut backend = StubBackend { committed: Vec::new(), pending: None, fail_insert_at: None };
    let docs =
        vec![Document::new("Paris is the capital of France"), Document::new("Lyon is a city in France")];
    let ids = stub_add(&store, &mut backend, &docs, vec![vec![1.0, 0.0], vec![0.0, 1.0]]).unwrap();
    assert_eq!(ids.len(), 2);
    assert_eq!(backend.committed.len(), 2);
    assert_eq!(backend.committed[0].0, ids[0]);
    assert_eq!(backend.committed[1].0, ids[1]);

    let opt = VecStoreOptions::new();
    let plan = store.similarity_search("What is the capital of France?", 1, &opt).unwrap();
    assert_eq!(plan.statement(), SEARCH_NEAREST);
    let rows = stub_search(&backend, &[1.0, 0.0], &plan.namespace, Some(plan.limit));
    let found = plan.finish(rows);
    assert_eq!(contents(&found), vec!["Paris is the capital of France"]);
    assert_eq!(f64::from_bits(found[0].score.to_bits()), 0.0);

    let all = store.similarity_search("What is the capital of France?", 10, &opt).unwrap();
    let rows = stub_search(&backend, &[1.0, 0.0], &all.namespace, None);
    let found = all.finish(rows);
    assert_eq!(
        contents(&found),
        vec!["Paris is the capital of France", "Lyon is a city in France"]
    );
    assert_eq!(f64::from_bits(found[0].score.to_bits()), 0.0);
    assert_eq!(f64::from_bits(found[1].score.to_bits()), 1.0);
}

#[test]
fn a_failed_insert_leaves_no_row_of_the_batch() {
    let store = search_store();
    let docs = vec![Document::new("one"), Document::new("two"), Document::new("three")];
    let embeddings = vec![vec![1.0, 0.0], vec![0.0, 1.0], vec![1.0, 1.0]];
    for fail_at in 0..3 {
        let mut backend =
            StubBackend { committed: Vec::new(), pending: None, fail_insert_at: Some(fail_at) };
        let before = Document::new("zero");
        backend.fail_insert_at = None;
        stub_add(&store, &mut backend, &[before], vec![vec![0.5, 0.5]]).unwrap();
        backend.fail_insert_at = Some(fail_at);
        let outcome = stub_add(&store, &mut backend, &docs, embeddings.clone());
        assert_eq!(outcome, Err(StoreError::BackendFailure("insert refused".to_string())));
        assert!(backend.pending.is_none());
        let texts: Vec<&str> = backend.committed.iter().map(|r| r.1.as_str()).collect();
        assert_eq!(texts, vec!["zero"]);
    }
}

#[test]
fn a_wrong_number_of_vectors_writes_nothing() {
    let store = search_store();
    let mut backend = StubBackend { committed: Vec::new(), pending: None, fail_insert_at: None };
    let docs = vec![Document::new("one"), Document::new("two")];
    let outcome = stub_add(&store, &mut backend, &docs, vec![vec![1.0, 0.0]]);
    assert_eq!(outcome, Err(StoreError::EmbeddingCountMismatch));
    assert!(backend.committed.is_empty());
    assert!(backend.pending.is_none());
}

#[test]
fn rows_are_stored_under_the_collection_s_namespace() {
    let store = search_store();
    let mut backend = StubBackend { committed: Vec::new(), pending: None, fail_insert_at: None };
    stub_add(&store, &mut backend, &[Document::new("one")], vec![vec![1.0, 0.0]]).unwrap();
    assert_eq!(backend.committed[0].3, "travel");
    let other = VecStoreOptions::new().with_name_space("guides");
    let plan = store.similarity_search("q", 5, &other).unwrap();
    assert_eq!(plan.namespace, "guides");
    let rows = stub_search(&backend, &[1.0, 0.0], &plan.namespace, None);
    assert!(plan.finish(rows).is_empty());
}

#[test]
fn rows_of_another_namespace_are_dropped() {
    let p = plan("b", 10);
    let rows = vec![row("in a", "a", 0.1), row("in b", "b", 0.2), row("also a", "a", 0.3)];
    let found = p.finish(rows);
    assert_eq!(contents(&found), vec!["in b"]);
}

#[test]
fn documents_come_back_nearest_first() {
    let p = plan("n", 10);
    let rows = vec![
        row("far", "n", 0.9),
        row("near", "n", 0.1),
        row("nowhere", "n", f64::NAN),
        row("middle", "n", 0.5),
        row("opposite", "n", 2.0),
        row("same", "n", 0.0),
    ];
    let found = p.finish(rows);
    assert_eq!(contents(&found), vec!["same", "near", "middle", "far", "opposite", "nowhere"]);
    for pair in found.windows(2) {
        assert!(pair[0].score.le(&pair[1].score));
    }
    let first = f64::from_bits(found[0].score.to_bits());
    let last_number = f64::from_bits(found[4].score.to_bits());
    assert!(first <= last_number);
}

#[test]
fn rows_at_the_same_distance_keep_their_order() {
    let p = plan("n", 10);
    let rows = vec![
        row("first", "n", 0.5),
        row("second", "n", 0.5),
        row("nearer", "n", 0.25),
        row("third", "n", 0.5),
    ];
    assert_eq!(contents(&p.finish(rows)), vec!["nearer", "first", "second", "third"]);
}

#[test]
fn the_limit_cuts_the_list() {
    let rows = || vec![row("c", "n", 0.3), row("a", "n", 0.1), row("b", "n", 0.2)];
    assert_eq!(contents(&plan("n", 2).finish(rows())), vec!["a", "b"]);
    assert_eq!(contents(&plan("n", 3).finish(rows())), vec!["a", "b", "c"]);
    assert_eq!(contents(&plan("n", 4).finish(rows())), vec!["a", "b", "c"]);
}

#[test]
fn a_limit_of_zero_returns_nothing() {
    let rows = vec![row("a", "n", 0.1), row("b", "n", 0.2)];
    assert!(plan("n", 0).finish(rows).is_empty());
    let store = search_store();
    let planned = store.similarity_search("q", 0, &VecStoreOptions::new());
    assert_eq!(planned.map(|p| p.limit), Ok(0));
}

#[test]
fn a_namespace_without_rows_returns_nothing() {
    assert!(plan("n", 5).finish(Vec::new()).is_empty());
    assert!(plan("n", 5).finish(vec![row("a", "m", 0.1)]).is_empty());
}

#[test]
fn a_document_carries_text_distance_and_namespace() {
    let given = row_with("text", "n", 0.25, "kind", JsonValue::String("city".to_string()));
    let doc = given.into_document();
    assert_eq!(doc.page_content, "text");
    assert_eq!(f64::from_bits(doc.score.to_bits()), 0.25);
    assert_eq!(
        doc.metadata,
        vec![
            ("namespace".to_string(), JsonValue::String("n".to_string())),
            ("kind".to_string(), JsonValue::String("city".to_string())),
        ]
    );
}

#[test]
fn the_threshold_drops_rows_that_are_farther() {
    let mut p = plan("n", 10);
    p.score_threshold = distance(0.5);
    let rows = vec![
        row("far", "n", 0.75),
        row("at", "n", 0.5),
        row("near", "n", 0.25),
        row("nowhere", "n", f64::NAN),
    ];
    assert_eq!(contents(&p.finish(rows)), vec!["near", "at"]);
    assert!(!p.pushes_limit());
    assert_eq!(p.statement(), SEARCH_ALL);
}

#[test]
fn a_threshold_of_zero_drops_nothing() {
    let p = plan("n", 10);
    let rows = vec![row("far", "n", 1.75), row("near", "n", 0.25)];
    assert_eq!(contents(&p.finish(rows)), vec!["near", "far"]);
    assert!(p.pushes_limit());
}

#[test]
fn filters_drop_rows_that_do_not_match() {
    let mut p = plan("n", 10);
    p.filters = Filters::FlatMap(vec![("kind".to_string(), Scalar::String("city".to_string()))]);
    let rows = vec![
        row_with("village", "n", 0.1, "kind", JsonValue::String("village".to_string())),
        row_with("city", "n", 0.2, "kind", JsonValue::String("city".to_string())),
        row("plain", "n", 0.05),
        row_with("number", "n", 0.01, "kind", JsonValue::Number(JsonNumber::PosInt(1))),
        row_with("nearer city", "n", 0.15, "kind", JsonValue::String("city".to_string())),
    ];
    assert_eq!(contents(&p.finish(rows)), vec!["nearer city", "city"]);
    assert_eq!(p.statement(), SEARCH_ALL);
}

#[test]
fn filters_apply_before_the_limit() {
    let mut p = plan("n", 1);
    p.filters = Filters::FlatMap(vec![("keep".to_string(), Scalar::Bool(true))]);
    let rows = vec![
        row_with("nearest", "n", 0.1, "keep", JsonValue::Bool(false)),
        row_with("kept", "n", 0.2, "keep", JsonValue::Bool(true)),
    ];
    assert_eq!(contents(&p.finish(rows)), vec!["kept"]);
}

#[test]
fn a_filter_on_the_namespace_reads_the_row_s_namespace() {
    let mut p = plan("n", 10);
    p.filters = Filters::FlatMap(vec![("namespace".to_string(), Scalar::String("n".to_string()))]);
    let shadowed = row_with("a", "n", 0.1, "namespace", JsonValue::String("other".to_string()));
    assert!(p.admits(&shadowed));
    p.filters = Filters::FlatMap(vec![("namespace".to_string(), Scalar::String("m".to_string()))]);
    assert!(!p.admits(&row("a", "n", 0.1)));
    p.filters = Filters::FlatMap(vec![("namespace".to_string(), Scalar::Null)]);
    assert!(!p.admits(&row("a", "n", 0.1)));
}

#[test]
fn admits_checks_namespace_threshold_and_filters() {
    let mut p = plan("n", 10);
    assert!(p.admits(&row("a", "n", 3.0)));
    assert!(!p.admits(&row("a", "m", 0.0)));
    p.score_threshold = distance(1.0);
    assert!(p.admits(&row("a", "n", 1.0)));
    assert!(!p.admits(&row("a", "n", 1.5)));
    assert!(p.admits(&row("a", "n", -0.5)));
}

#[test]
fn rows_already_in_order_pass_unchanged() {
    let p = plan("n", 3);
    let rows = vec![row("a", "n", 0.1), row("b", "n", 0.2), row("c", "n", 0.2)];
    let found = p.finish(rows);
    assert_eq!(contents(&found), vec!["a", "b", "c"]);
}

#[test]
fn a_search_resolves_its_options() {
    let store = search_store();
    let opt = VecStoreOptions::new()
        .with_name_space("guides")
        .with_score_threshold(distance(0.5))
        .with_filters(JsonValue::Object(vec![("k".to_string(), JsonValue::Bool(true))]));
    let plan = store.similarity_search("where to eat", 4, &opt).unwrap();
    assert_eq!(
        plan,
        SearchPlan {
            query: "where to eat".to_string(),
            namespace: "guides".to_string(),
            limit: 4,
            filters: Filters::FlatMap(vec![("k".to_string(), Scalar::Bool(true))]),
            score_threshold: distance(0.5),
        }
    );
    let plain = store.similarity_search("where to eat", 4, &VecStoreOptions::new()).unwrap();
    assert_eq!(plain.namespace, "travel");
    assert_eq!(plain.filters, Filters::Empty);
    assert_eq!(plain.score_threshold, Double::zero());
}

#[test]
fn a_search_refuses_bad_options() {
    let store = search_store();
    let bad_threshold = VecStoreOptions::new().with_score_threshold(distance(1.1));
    assert_eq!(
        store.similarity_search("q", 1, &bad_threshold),
        Err(StoreError::InvalidScoreThreshold)
    );
    let negative = VecStoreOptions::new().with_score_threshold(distance(-0.1));
    assert_eq!(store.similarity_search("q", 1, &negative), Err(StoreError::InvalidScoreThreshold));
    let bad_filters = VecStoreOptions::new().with_filters(JsonValue::Array(Vec::new()));
    assert_eq!(store.similarity_search("q", 1, &bad_filters), Err(StoreError::InvalidFilterShape));
    let both = VecStoreOptions::new()
        .with_filters(JsonValue::Null)
        .with_score_threshold(distance(2.0));
    assert_eq!(store.similarity_search("q", 1, &both), Err(StoreError::InvalidFilterShape));
}

#[test]
fn search_statements() {
    assert_eq!(
        SEARCH_NEAREST,
        "SELECT content, namespace, (vectors <=> $1) as distance FROM vector_docs WHERE namespace = $2 ORDER BY distance ASC LIMIT $3"
    );
    assert_eq!(
        SEARCH_ALL,
        "SELECT content, namespace, (vectors <=> $1) as distance FROM vector_docs WHERE namespace = $2 ORDER BY distance ASC"
    );
}

#[test]
fn the_backend_gets_the_limit_where_nothing_is_filtered() {
    let mut p = plan("n", 7);
    assert_eq!(p.backend_limit(), Some(7));
    p.limit = usize::MAX;
    assert_eq!(p.backend_limit(), Some(i32::MAX));
    p.limit = 0;
    assert_eq!(p.backend_limit(), Some(0));
    p.score_threshold = distance(0.5);
    assert_eq!(p.backend_limit(), None);
    p.score_threshold = Double::zero();
    p.filters = Filters::FlatMap(vec![("k".to_string(), Scalar::Null)]);
    assert_eq!(p.backend_limit(), None);
}
