use vecstore::double::Double;
use vecstore::json::{JsonNumber, JsonValue};
use vecstore::vectorstore::error::StoreError;
use vecstore::vectorstore::filters::{Filters, Scalar};
use vecstore::vectorstore::options::VecStoreOptions;
use vecstore::vectorstore::pgvector::{BoundStatement, DistanceFunction, HNSWIndex, Store};
use vecstore::vectorstore::sql::{drop_table, insert_row, is_identifier, REMOVE_COLLECTION};

fn store() -> Store<&'static str, ()> {
    Store::new(
        "default embedder",
        (),
        "travel",
        "0b54b5d2-3a5e-4d0c-9f5a-6f1f2c8f7e11",
        "pg_collection",
        "pg_embedding",
        2,
    )
    .unwrap()
}

fn threshold(x: f32) -> Double {
    Double::from_bits((x as f64).to_bits())
}

#[test]
fn new_keeps_what_it_is_given() {
    let s = store();
    assert_eq!(*s.embedder(), "default embedder");
    assert_eq!(*s.pool(), ());
    assert_eq!(s.collection_name(), "travel");
    assert_eq!(s.collection_uuid(), "0b54b5d2-3a5e-4d0c-9f5a-6f1f2c8f7e11");
    assert_eq!(s.collection_table_name(), "pg_collection");
    assert_eq!(s.embedder_table_name(), "pg_embedding");
    assert_eq!(s.vector_dimensions(), 2);
    assert!(s.collection_metadata().is_empty());
    assert!(!s.pre_delete_collection());
    assert!(s.hns_index().is_none());
    assert!(s.vstore_options().name_space.is_none());
    assert!(s.vstore_options().embedder.is_none());
}

#[test]
fn new_refuses_an_empty_collection_name() {
    assert!(Store::new(1u8, (), "", "id", "collection", "embedding", 2).is_none());
}

#[test]
fn new_refuses_table_names_that_are_no_identifiers() {
    assert!(Store::new(1u8, (), "c", "id", "", "embedding", 2).is_none());
    assert!(Store::new(1u8, (), "c", "id", "collection", "", 2).is_none());
    assert!(Store::new(1u8, (), "c", "id", "a; DROP TABLE b", "embedding", 2).is_none());
    assert!(Store::new(1u8, (), "c", "id", "collection", "1st", 2).is_none());
    assert!(Store::new(1u8, (), "c", "id", "collection", "a-b", 2).is_none());
    assert!(Store::new(1u8, (), "c", "id", "_c1", "E_2", 2).is_some());
}

#[test]
fn identifiers() {
    assert!(is_identifier("a"));
    assert!(is_identifier("_"));
    assert!(is_identifier("pg_embedding"));
    assert!(is_identifier("T9"));
    assert!(!is_identifier(""));
    assert!(!is_identifier("9t"));
    assert!(!is_identifier("a b"));
    assert!(!is_identifier("a\"b"));
    assert!(!is_identifier("caf\u{e9}"));
    assert!(is_identifier(&"a".repeat(63)));
    assert!(!is_identifier(&"a".repeat(64)));
}

#[test]
fn builders_set_one_thing() {
    let s = store()
        .with_pre_delete_collection(true)
        .with_hns_index(HNSWIndex::new(16, 64, "cosine"))
        .with_collection_metadata(vec![("owner".to_string(), JsonValue::Null)])
        .with_vstore_options(VecStoreOptions::new().with_name_space("n"));
    assert!(s.pre_delete_collection());
    assert_eq!(s.hns_index(), Some(&HNSWIndex::new(16, 64, "cosine")));
    assert_eq!(s.collection_metadata().len(), 1);
    assert_eq!(s.vstore_options().name_space.as_deref(), Some("n"));
    assert_eq!(s.collection_name(), "travel");
    assert_eq!(s.embedder_table_name(), "pg_embedding");
    assert_eq!(s.vector_dimensions(), 2);
}

#[test]
fn hnsw_index_keeps_its_parameters() {
    let index = HNSWIndex::new(16, 64, "vector_l2_ops");
    assert_eq!(index.m, 16);
    assert_eq!(index.ef_construction, 64);
    assert_eq!(index.distance_function, "vector_l2_ops");
    assert_eq!(index.distance(), None);
}

#[test]
fn distance_functions_by_name() {
    assert_eq!(DistanceFunction::parse("cosine"), Some(DistanceFunction::Cosine));
    assert_eq!(DistanceFunction::parse("l2"), Some(DistanceFunction::L2));
    assert_eq!(DistanceFunction::parse("inner_product"), Some(DistanceFunction::InnerProduct));
    assert_eq!(DistanceFunction::parse("Cosine"), None);
    assert_eq!(DistanceFunction::parse(""), None);
    assert_eq!(HNSWIndex::new(8, 32, "l2").distance(), Some(DistanceFunction::L2));
}

#[test]
fn score_threshold_out_of_range_is_refused() {
    let s = store();
    for x in [-0.1f32, 1.1f32] {
        let opt = VecStoreOptions::new().with_score_threshold(threshold(x));
        assert_eq!(s.get_score_threshold(&opt), Err(StoreError::InvalidScoreThreshold));
    }
    let nan = VecStoreOptions::new().with_score_threshold(Double::from_bits(f64::NAN.to_bits()));
    assert_eq!(s.get_score_threshold(&nan), Err(StoreError::InvalidScoreThreshold));
}

#[test]
fn score_threshold_in_range_is_kept() {
    let s = store();
    for x in [0.0f32, 1.0f32, 0.25f32] {
        let opt = VecStoreOptions::new().with_score_threshold(threshold(x));
        assert_eq!(s.get_score_threshold(&opt), Ok(threshold(x)));
    }
}

#[test]
fn score_threshold_defaults_to_zero() {
    let s = store();
    let opt = VecStoreOptions::new();
    assert_eq!(s.get_score_threshold(&opt), Ok(Double::from_bits(0.0f64.to_bits())));
}

#[test]
fn nested_filter_value_is_refused() {
    let s = store();
    let nested = JsonValue::Object(vec![(
        "key1".to_string(),
        JsonValue::Object(vec![("key2".to_string(), JsonValue::String("values2".to_string()))]),
    )]);
    let opt = VecStoreOptions::new().with_filters(nested);
    assert_eq!(s.get_filters(&opt), Err(StoreError::InvalidFilterShape));
}

#[test]
fn array_filter_value_is_refused() {
    let s = store();
    let listed = JsonValue::Object(vec![(
        "key".to_string(),
        JsonValue::Array(vec![
            JsonValue::String("value1".to_string()),
            JsonValue::String("values2".to_string()),
        ]),
    )]);
    let opt = VecStoreOptions::new().with_filters(listed);
    assert_eq!(s.get_filters(&opt), Err(StoreError::InvalidFilterShape));
}

#[test]
fn filters_that_are_no_object_are_refused() {
    let s = store();
    for raw in [
        JsonValue::Null,
        JsonValue::Bool(true),
        JsonValue::String("k=v".to_string()),
        JsonValue::Number(JsonNumber::PosInt(1)),
        JsonValue::Array(Vec::new()),
    ] {
        let opt = VecStoreOptions::new().with_filters(raw);
        assert_eq!(s.get_filters(&opt), Err(StoreError::InvalidFilterShape));
    }
}

#[test]
fn flat_filters_are_resolved() {
    let s = store();
    let flat = JsonValue::Object(vec![
        ("kind".to_string(), JsonValue::String("city".to_string())),
        ("rank".to_string(), JsonValue::Number(JsonNumber::PosInt(1))),
        ("open".to_string(), JsonValue::Bool(true)),
        ("note".to_string(), JsonValue::Null),
    ]);
    let opt = VecStoreOptions::new().with_filters(flat);
    assert_eq!(
        s.get_filters(&opt),
        Ok(Filters::FlatMap(vec![
            ("kind".to_string(), Scalar::String("city".to_string())),
            ("rank".to_string(), Scalar::Number(JsonNumber::PosInt(1))),
            ("open".to_string(), Scalar::Bool(true)),
            ("note".to_string(), Scalar::Null),
        ]))
    );
}

#[test]
fn absent_filters_resolve_to_none() {
    let s = store();
    assert_eq!(s.get_filters(&VecStoreOptions::new()), Ok(Filters::Empty));
    let empty = VecStoreOptions::new().with_filters(JsonValue::Object(Vec::new()));
    assert_eq!(s.get_filters(&empty), Ok(Filters::FlatMap(Vec::new())));
}

#[test]
fn name_space_is_the_given_one_or_the_collection() {
    let s = store();
    assert_eq!(s.get_name_space(&VecStoreOptions::new()), "travel");
    assert_eq!(s.get_name_space(&VecStoreOptions::new().with_name_space("guides")), "guides");
    assert_eq!(s.get_name_space(&VecStoreOptions::new().with_name_space("")), "travel");
}

#[test]
fn active_embedder_is_the_override_or_the_default() {
    let s = store();
    assert_eq!(*s.active_embedder(&VecStoreOptions::new()), "default embedder");
    let with = VecStoreOptions::new().with_embedder("other embedder");
    assert_eq!(*s.active_embedder(&with), "other embedder");
}

#[test]
fn drop_tables_drops_the_embedding_table_first() {
    let s = store();
    assert_eq!(
        s.drop_tables(),
        vec![
            "DROP TABLE IF EXISTS pg_embedding".to_string(),
            "DROP TABLE IF EXISTS pg_collection".to_string(),
        ]
    );
}

#[test]
fn drop_tables_twice_is_the_same_statements() {
    let s = store();
    let first = s.drop_tables();
    let second = s.drop_tables();
    assert_eq!(first, second);
    for statement in second.iter() {
        assert!(statement.starts_with("DROP TABLE IF EXISTS "));
    }
}

#[test]
fn remove_collection_binds_the_identity() {
    let s = store();
    assert_eq!(
        s.remove_collection(),
        BoundStatement {
            sql: "DELETE FROM collection WHERE uuid = $1".to_string(),
            parameter: "0b54b5d2-3a5e-4d0c-9f5a-6f1f2c8f7e11".to_string(),
        }
    );
    assert_eq!(REMOVE_COLLECTION, "DELETE FROM collection WHERE uuid = $1");
}

#[test]
fn statement_texts() {
    assert_eq!(drop_table("t"), "DROP TABLE IF EXISTS t");
    assert_eq!(
        insert_row("e"),
        "INSERT INTO e \n(uuid, document, embedding, cmetadata, collection_id) VALUES ($1, $2, $3, $4, $5)"
    );
}

#[test]
fn error_messages() {
    assert_eq!(StoreError::InvalidFilterShape.message(), "Invalid filters format");
    assert_eq!(StoreError::InvalidScoreThreshold.message(), "Invalid score threshold");
    assert_eq!(
        StoreError::UnsupportedOption.message(),
        "score_threshold, filters, and name_space are not supported in pgvector"
    );
    assert_eq!(
        StoreError::EmbeddingCountMismatch.message(),
        "Number of vectors and documents do not match"
    );
    assert_eq!(StoreError::EmbeddingProviderFailure("quota".to_string()).message(), "quota");
    assert_eq!(StoreError::BackendFailure("connection reset".to_string()).message(), "connection reset");
}

#[test]
fn options_default_to_nothing_set() {
    let opt: VecStoreOptions<u8> = VecStoreOptions::default();
    assert!(opt.name_space.is_none());
    assert!(opt.score_threshold.is_none());
    assert!(opt.filters.is_none());
    assert!(opt.embedder.is_none());
}

#[test]
fn resolve_gives_the_whole_context() {
    let s = store();
    let opt = VecStoreOptions::new()
        .with_name_space("guides")
        .with_score_threshold(threshold(0.5))
        .with_filters(JsonValue::Object(vec![("k".to_string(), JsonValue::Null)]))
        .with_embedder("other embedder");
    let context = s.resolve(&opt).unwrap();
    assert_eq!(context.namespace, "guides");
    assert_eq!(context.score_threshold, threshold(0.5));
    assert_eq!(context.filters, Filters::FlatMap(vec![("k".to_string(), Scalar::Null)]));
    assert_eq!(context.embedder_override, Some(&"other embedder"));

    let plain = VecStoreOptions::new();
    let context = s.resolve(&plain).unwrap();
    assert_eq!(context.namespace, "travel");
    assert_eq!(context.score_threshold, Double::zero());
    assert_eq!(context.filters, Filters::Empty);
    assert_eq!(context.embedder_override, None);
}

#[test]
fn resolve_fails_on_the_first_bad_option() {
    let s = store();
    let bad_threshold = VecStoreOptions::new().with_score_threshold(threshold(1.1));
    assert_eq!(s.resolve(&bad_threshold).err(), Some(StoreError::InvalidScoreThreshold));
    let bad_filters = VecStoreOptions::new().with_filters(JsonValue::Bool(true));
    assert_eq!(s.resolve(&bad_filters).err(), Some(StoreError::InvalidFilterShape));
    let both = VecStoreOptions::new()
        .with_score_threshold(threshold(-0.1))
        .with_filters(JsonValue::Bool(true));
    assert_eq!(s.resolve(&both).err(), Some(StoreError::InvalidFilterShape));
}
