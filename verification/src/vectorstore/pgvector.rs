//! The store on a relational backend with a vector column.
//!
//! A `Store` holds the configuration of one collection and the handles of
//! its two collaborators. It decides; it does not talk to either of them.
//! Each operation returns what the caller must carry out: statements to
//! run, a plan to search by, or a machine to step through.

use crate::double::Double;
use crate::json::JsonValue;
use crate::vectorstore::error::StoreError;
use crate::vectorstore::filters::{flat, flatten, flattens, Filters};
use crate::vectorstore::options::VecStoreOptions;
use crate::vectorstore::sql::{
    drop_table,
    drop_table_text,
    identifier,
    is_identifier,
    REMOVE_COLLECTION,
};
use vstd::prelude::*;

verus! {

/// How the backend measures the distance between two embeddings.
#[derive(Clone, Copy, Debug, PartialEq, Eq, Structural)]
pub enum DistanceFunction {
    Cosine,
    L2,
    InnerProduct,
}

impl DistanceFunction {
    /// The distance function that `name` names, if it names one.
    pub open spec fn named(name: Seq<char>) -> Option<DistanceFunction> {
        if name == "cosine"@ {
            Some(DistanceFunction::Cosine)
        } else if name == "l2"@ {
            Some(DistanceFunction::L2)
        } else if name == "inner_product"@ {
            Some(DistanceFunction::InnerProduct)
        } else {
            None
        }
    }

    /// Reads `cosine`, `l2` or `inner_product`.
    pub fn parse(name: &str) -> (distance: Option<DistanceFunction>)
        ensures
            distance == Self::named(name@),
    {
        let name: String = String::from_str(name);
        if name == String::from_str("cosine") {
            Some(DistanceFunction::Cosine)
        } else if name == String::from_str("l2") {
            Some(DistanceFunction::L2)
        } else if name == String::from_str("inner_product") {
            Some(DistanceFunction::InnerProduct)
        } else {
            None
        }
    }
}

/// Tuning of the backend's HNSW index. The index itself is the backend's.
#[derive(Debug, PartialEq, Eq)]
pub struct HNSWIndex {
    pub m: i32,
    pub ef_construction: i32,
    pub distance_function: String,
}

impl HNSWIndex {
    pub fn new(m: i32, ef_construction: i32, distance_function: &str) -> (index: Self)
        ensures
            index.m == m,
            index.ef_construction == ef_construction,
            index.distance_function@ == distance_function@,
    {
        HNSWIndex { m, ef_construction, distance_function: String::from_str(distance_function) }
    }

    /// The distance function the index is built for, where its name is known.
    pub fn distance(&self) -> (distance: Option<DistanceFunction>)
        ensures
            distance == DistanceFunction::named(self.distance_function@),
    {
        DistanceFunction::parse(self.distance_function.as_str())
    }
}

/// One statement with the one value bound to its `$1`.
#[derive(Debug, PartialEq, Eq)]
pub struct BoundStatement {
    pub sql: String,
    pub parameter: String,
}

/// The options of one call, resolved: the namespace to work in, the filters
/// and the threshold to apply, and the embedder to use in place of the
/// store's if the call names one. It lives as long as the call.
pub struct QueryContext<'a, E> {
    pub namespace: String,
    pub filters: Filters,
    pub score_threshold: Double,
    pub embedder_override: Option<&'a E>,
}

/// A collection in the backend. `E` is the handle of the embedder, `P` that
/// of the connection pool.
pub struct Store<E, P> {
    embedder: E,
    pool: P,
    collection_name: String,
    collection_table_name: String,
    collection_uuid: String,
    collection_metadata: Vec<(String, JsonValue)>,
    embedder_table_name: String,
    pre_delete_collection: bool,
    vector_dimensions: i32,
    hns_index: Option<HNSWIndex>,
    vstore_options: VecStoreOptions<E>,
}

/// Whether a store can be made of these names.
pub open spec fn valid_names(
    collection_name: Seq<char>,
    collection_table_name: Seq<char>,
    embedder_table_name: Seq<char>,
) -> bool {
    &&& collection_name.len() > 0
    &&& identifier(collection_table_name)
    &&& identifier(embedder_table_name)
}

/// The threshold that `raw` resolves to, if it resolves.
pub open spec fn resolved_threshold(raw: Option<Double>) -> Option<Double> {
    match raw {
        None => Some(Double { bits: 0 }),
        Some(given) => if given.spec_in_unit_interval() {
            Some(given)
        } else {
            None
        },
    }
}

/// The namespace that `raw` resolves to in a collection named `collection`.
pub open spec fn resolved_namespace(raw: Option<String>, collection: Seq<char>) -> Seq<char> {
    match raw {
        Some(name) => if name@.len() > 0 {
            name@
        } else {
            collection
        },
        None => collection,
    }
}

/// Whether `raw` resolves to `filters`.
pub open spec fn resolves_filters(raw: Option<JsonValue>, filters: Filters) -> bool {
    match raw {
        None => filters == Filters::Empty,
        Some(JsonValue::Object(members)) => filters is FlatMap && flattens(
            members@,
            filters->FlatMap_0@,
        ),
        Some(_) => false,
    }
}

/// Whether `raw` has a shape that resolves: absent, or an object whose
/// members are all scalars.
pub open spec fn filters_well_shaped(raw: Option<JsonValue>) -> bool {
    match raw {
        None => true,
        Some(JsonValue::Object(members)) => flat(members@),
        Some(_) => false,
    }
}

impl<E, P> Store<E, P> {
    #[verifier::type_invariant]
    spec fn well_formed(self) -> bool {
        valid_names(self.collection_name@, self.collection_table_name@, self.embedder_table_name@)
    }

    pub closed spec fn spec_embedder(&self) -> E {
        self.embedder
    }

    pub closed spec fn spec_pool(&self) -> P {
        self.pool
    }

    pub closed spec fn spec_collection_name(&self) -> Seq<char> {
        self.collection_name@
    }

    pub closed spec fn spec_collection_table_name(&self) -> Seq<char> {
        self.collection_table_name@
    }

    pub closed spec fn spec_collection_uuid(&self) -> Seq<char> {
        self.collection_uuid@
    }

    pub closed spec fn spec_collection_metadata(&self) -> Vec<(String, JsonValue)> {
        self.collection_metadata
    }

    pub closed spec fn spec_embedder_table_name(&self) -> Seq<char> {
        self.embedder_table_name@
    }

    pub closed spec fn spec_pre_delete_collection(&self) -> bool {
        self.pre_delete_collection
    }

    pub closed spec fn spec_vector_dimensions(&self) -> i32 {
        self.vector_dimensions
    }

    pub closed spec fn spec_hns_index(&self) -> Option<HNSWIndex> {
        self.hns_index
    }

    pub closed spec fn spec_vstore_options(&self) -> VecStoreOptions<E> {
        self.vstore_options
    }

    /// A store for the collection `collection_name` with the identity
    /// `collection_uuid`, kept in the two tables named. There is none where
    /// the collection's name is empty or a table's name is no identifier.
    pub fn new(
        embedder: E,
        pool: P,
        collection_name: &str,
        collection_uuid: &str,
        collection_table_name: &str,
        embedder_table_name: &str,
        vector_dimensions: i32,
    ) -> (store: Option<Self>)
        ensures
            store is Some <==> valid_names(
                collection_name@,
                collection_table_name@,
                embedder_table_name@,
            ),
            store is Some ==> {
                let s = store->0;
                &&& s.spec_embedder() == embedder
                &&& s.spec_pool() == pool
                &&& s.spec_collection_name() == collection_name@
                &&& s.spec_collection_uuid() == collection_uuid@
                &&& s.spec_collection_table_name() == collection_table_name@
                &&& s.spec_embedder_table_name() == embedder_table_name@
                &&& s.spec_vector_dimensions() == vector_dimensions
                &&& s.spec_collection_metadata()@.len() == 0
                &&& !s.spec_pre_delete_collection()
                &&& s.spec_hns_index() is None
                &&& s.spec_vstore_options().name_space is None
                &&& s.spec_vstore_options().score_threshold is None
                &&& s.spec_vstore_options().filters is None
                &&& s.spec_vstore_options().embedder is None
            },
    {
        if collection_name.is_empty() || !is_identifier(collection_table_name) || !is_identifier(
            embedder_table_name,
        ) {
            return None;
        }
        Some(
            Store {
                embedder,
                pool,
                collection_name: String::from_str(collection_name),
                collection_table_name: String::from_str(collection_table_name),
                collection_uuid: String::from_str(collection_uuid),
                collection_metadata: Vec::new(),
                embedder_table_name: String::from_str(embedder_table_name),
                pre_delete_collection: false,
                vector_dimensions,
                hns_index: None,
                vstore_options: VecStoreOptions::new(),
            },
        )
    }

    /// The same store, told whether an existing collection of its name is
    /// deleted before the store is used.
    pub fn with_pre_delete_collection(self, pre_delete_collection: bool) -> (store: Self)
        ensures
            store.spec_pre_delete_collection() == pre_delete_collection,
            store.same_but_settings(&self),
            store.spec_collection_metadata() == self.spec_collection_metadata(),
            store.spec_hns_index() == self.spec_hns_index(),
            store.spec_vstore_options() == self.spec_vstore_options(),
    {
        proof {
            use_type_invariant(&self);
        }
        Store {
            embedder: self.embedder,
            pool: self.pool,
            collection_name: self.collection_name,
            collection_table_name: self.collection_table_name,
            collection_uuid: self.collection_uuid,
            collection_metadata: self.collection_metadata,
            embedder_table_name: self.embedder_table_name,
            pre_delete_collection,
            vector_dimensions: self.vector_dimensions,
            hns_index: self.hns_index,
            vstore_options: self.vstore_options,
        }
    }

    /// The same store with tuning for the backend's index.
    pub fn with_hns_index(self, hns_index: HNSWIndex) -> (store: Self)
        ensures
            store.spec_hns_index() == Some(hns_index),
            store.same_but_settings(&self),
            store.spec_collection_metadata() == self.spec_collection_metadata(),
            store.spec_pre_delete_collection() == self.spec_pre_delete_collection(),
            store.spec_vstore_options() == self.spec_vstore_options(),
    {
        proof {
            use_type_invariant(&self);
        }
        Store {
            embedder: self.embedder,
            pool: self.pool,
            collection_name: self.collection_name,
            collection_table_name: self.collection_table_name,
            collection_uuid: self.collection_uuid,
            collection_metadata: self.collection_metadata,
            embedder_table_name: self.embedder_table_name,
            pre_delete_collection: self.pre_delete_collection,
            vector_dimensions: self.vector_dimensions,
            hns_index: Some(hns_index),
            vstore_options: self.vstore_options,
        }
    }

    /// The same store with metadata for its collection.
    pub fn with_collection_metadata(self, collection_metadata: Vec<(String, JsonValue)>) -> (store:
        Self)
        ensures
            store.spec_collection_metadata() == collection_metadata,
            store.same_but_settings(&self),
            store.spec_pre_delete_collection() == self.spec_pre_delete_collection(),
            store.spec_hns_index() == self.spec_hns_index(),
            store.spec_vstore_options() == self.spec_vstore_options(),
    {
        proof {
            use_type_invariant(&self);
        }
        Store {
            embedder: self.embedder,
            pool: self.pool,
            collection_name: self.collection_name,
            collection_table_name: self.collection_table_name,
            collection_uuid: self.collection_uuid,
            collection_metadata,
            embedder_table_name: self.embedder_table_name,
            pre_delete_collection: self.pre_delete_collection,
            vector_dimensions: self.vector_dimensions,
            hns_index: self.hns_index,
            vstore_options: self.vstore_options,
        }
    }

    /// The same store with options of its own.
    pub fn with_vstore_options(self, vstore_options: VecStoreOptions<E>) -> (store: Self)
        ensures
            store.spec_vstore_options() == vstore_options,
            store.same_but_settings(&self),
            store.spec_collection_metadata() == self.spec_collection_metadata(),
            store.spec_pre_delete_collection() == self.spec_pre_delete_collection(),
            store.spec_hns_index() == self.spec_hns_index(),
    {
        proof {
            use_type_invariant(&self);
        }
        Store {
            embedder: self.embedder,
            pool: self.pool,
            collection_name: self.collection_name,
            collection_table_name: self.collection_table_name,
            collection_uuid: self.collection_uuid,
            collection_metadata: self.collection_metadata,
            embedder_table_name: self.embedder_table_name,
            pre_delete_collection: self.pre_delete_collection,
            vector_dimensions: self.vector_dimensions,
            hns_index: self.hns_index,
            vstore_options,
        }
    }

    /// Whether this store has the handles, names, identity and dimensions
    /// of `other`.
    pub open spec fn same_but_settings(&self, other: &Self) -> bool {
        &&& self.spec_embedder() == other.spec_embedder()
        &&& self.spec_pool() == other.spec_pool()
        &&& self.spec_collection_name() == other.spec_collection_name()
        &&& self.spec_collection_uuid() == other.spec_collection_uuid()
        &&& self.spec_collection_table_name() == other.spec_collection_table_name()
        &&& self.spec_embedder_table_name() == other.spec_embedder_table_name()
        &&& self.spec_vector_dimensions() == other.spec_vector_dimensions()
    }

    pub fn embedder(&self) -> (embedder: &E)
        ensures
            *embedder == self.spec_embedder(),
    {
        &self.embedder
    }

    pub fn pool(&self) -> (pool: &P)
        ensures
            *pool == self.spec_pool(),
    {
        &self.pool
    }

    pub fn collection_name(&self) -> (name: &str)
        ensures
            name@ == self.spec_collection_name(),
            name@.len() > 0,
    {
        proof {
            use_type_invariant(self);
        }
        self.collection_name.as_str()
    }

    pub fn collection_table_name(&self) -> (name: &str)
        ensures
            name@ == self.spec_collection_table_name(),
            identifier(name@),
    {
        proof {
            use_type_invariant(self);
        }
        self.collection_table_name.as_str()
    }

    pub fn collection_uuid(&self) -> (uuid: &str)
        ensures
            uuid@ == self.spec_collection_uuid(),
    {
        self.collection_uuid.as_str()
    }

    pub fn collection_metadata(&self) -> (metadata: &Vec<(String, JsonValue)>)
        ensures
            *metadata == self.spec_collection_metadata(),
    {
        &self.collection_metadata
    }

    pub fn embedder_table_name(&self) -> (name: &str)
        ensures
            name@ == self.spec_embedder_table_name(),
            identifier(name@),
    {
        proof {
            use_type_invariant(self);
        }
        self.embedder_table_name.as_str()
    }

    pub fn pre_delete_collection(&self) -> (flag: bool)
        ensures
            flag == self.spec_pre_delete_collection(),
    {
        self.pre_delete_collection
    }

    pub fn vector_dimensions(&self) -> (dimensions: i32)
        ensures
            dimensions == self.spec_vector_dimensions(),
    {
        self.vector_dimensions
    }

    pub fn hns_index(&self) -> (index: Option<&HNSWIndex>)
        ensures
            match index {
                Some(i) => self.spec_hns_index() == Some(*i),
                None => self.spec_hns_index() is None,
            },
    {
        self.hns_index.as_ref()
    }

    pub fn vstore_options(&self) -> (options: &VecStoreOptions<E>)
        ensures
            *options == self.spec_vstore_options(),
    {
        &self.vstore_options
    }

    /// The filters of a call: none where none are given, the members of a
    /// flat object where one is given, and an error for any other shape.
    pub fn get_filters(&self, opt: &VecStoreOptions<E>) -> (resolved: Result<Filters, StoreError>)
        ensures
            resolved is Ok <==> filters_well_shaped(opt.filters),
            match resolved {
                Ok(filters) => resolves_filters(opt.filters, filters),
                Err(e) => e == StoreError::InvalidFilterShape,
            },
    {
        match &opt.filters {
            None => Ok(Filters::Empty),
            Some(JsonValue::Object(members)) => match flatten(members) {
                Some(entries) => Ok(Filters::FlatMap(entries)),
                None => Err(StoreError::InvalidFilterShape),
            },
            Some(_) => Err(StoreError::InvalidFilterShape),
        }
    }

    /// The namespace of a call: the one given unless it is empty, else the
    /// collection's name.
    pub fn get_name_space(&self, opt: &VecStoreOptions<E>) -> (name_space: String)
        ensures
            name_space@ == resolved_namespace(opt.name_space, self.spec_collection_name()),
            name_space@.len() > 0,
    {
        proof {
            use_type_invariant(self);
        }
        match &opt.name_space {
            Some(name_space) => {
                if name_space.as_str().is_empty() {
                    self.collection_name.clone()
                } else {
                    name_space.clone()
                }
            },
            None => self.collection_name.clone(),
        }
    }

    /// The score threshold of a call: `0.0` where none is given, the one
    /// given where it is a number from 0 to 1, else an error.
    pub fn get_score_threshold(&self, opt: &VecStoreOptions<E>) -> (resolved: Result<
        Double,
        StoreError,
    >)
        ensures
            match resolved_threshold(opt.score_threshold) {
                Some(score) => resolved == Ok::<Double, StoreError>(score),
                None => resolved == Err::<Double, StoreError>(StoreError::InvalidScoreThreshold),
            },
    {
        match &opt.score_threshold {
            Some(score) => {
                if score.in_unit_interval() {
                    Ok(*score)
                } else {
                    Err(StoreError::InvalidScoreThreshold)
                }
            },
            None => Ok(Double::zero()),
        }
    }

    /// The options of a call, resolved, or the first thing wrong with them.
    ///
    /// Filters of another shape than a flat object are refused first, a
    /// threshold that is no number from 0 to 1 second.
    pub fn resolve<'a>(&self, opt: &'a VecStoreOptions<E>) -> (resolved: Result<
        QueryContext<'a, E>,
        StoreError,
    >)
        ensures
            match resolved {
                Ok(context) => {
                    &&& filters_well_shaped(opt.filters)
                    &&& resolves_filters(opt.filters, context.filters)
                    &&& resolved_threshold(opt.score_threshold) == Some(context.score_threshold)
                    &&& context.namespace@ == resolved_namespace(
                        opt.name_space,
                        self.spec_collection_name(),
                    )
                    &&& context.namespace@.len() > 0
                    &&& match context.embedder_override {
                        Some(given) => opt.embedder == Some(*given),
                        None => opt.embedder is None,
                    }
                },
                Err(error) => {
                    if !filters_well_shaped(opt.filters) {
                        error == StoreError::InvalidFilterShape
                    } else {
                        &&& resolved_threshold(opt.score_threshold) is None
                        &&& error == StoreError::InvalidScoreThreshold
                    }
                },
            },
    {
        let filters: Filters = match self.get_filters(opt) {
            Ok(filters) => filters,
            Err(error) => {
                return Err(error);
            },
        };
        let score_threshold: Double = match self.get_score_threshold(opt) {
            Ok(score) => score,
            Err(error) => {
                return Err(error);
            },
        };
        Ok(
            QueryContext {
                namespace: self.get_name_space(opt),
                filters,
                score_threshold,
                embedder_override: opt.embedder.as_ref(),
            },
        )
    }

    /// The embedder of a call: the one given, else the store's.
    pub fn active_embedder<'a>(&'a self, opt: &'a VecStoreOptions<E>) -> (embedder: &'a E)
        ensures
            *embedder == match opt.embedder {
                Some(given) => given,
                None => self.spec_embedder(),
            },
    {
        match &opt.embedder {
            Some(given) => given,
            None => &self.embedder,
        }
    }

    /// The statements that remove the collection's two tables, in the order
    /// to run them: the embedding table first. Each is a no-op where its
    /// table is not there.
    pub fn drop_tables(&self) -> (statements: Vec<String>)
        ensures
            statements@.len() == 2,
            statements@[0]@ == drop_table_text(self.spec_embedder_table_name()),
            statements@[1]@ == drop_table_text(self.spec_collection_table_name()),
    {
        let mut statements: Vec<String> = Vec::new();
        statements.push(drop_table(self.embedder_table_name.as_str()));
        statements.push(drop_table(self.collection_table_name.as_str()));
        statements
    }

    /// The statement that deletes the collection's row, bound to the
    /// collection's identity. It is a no-op where the row is not there.
    pub fn remove_collection(&self) -> (statement: BoundStatement)
        ensures
            statement.sql@ == REMOVE_COLLECTION@,
            statement.parameter@ == self.spec_collection_uuid(),
    {
        BoundStatement {
            sql: String::from_str(REMOVE_COLLECTION),
            parameter: self.collection_uuid.clone(),
        }
    }
}

} // verus!
