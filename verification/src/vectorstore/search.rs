//! Similarity search: what to ask the backend for, and what to make of the
//! rows it returns.
//!
//! A search resolves its options into a `SearchPlan`. The caller embeds the
//! query, runs the plan's statement and hands the rows to `finish`, which
//! keeps the rows of the plan's namespace that meet the filters and the
//! threshold, orders them by distance, nearest first, and cuts the list at
//! the limit. A backend that has already done part of this loses nothing:
//! `finish` leaves rows that are admitted and in order as they are.

use crate::double::{nan_bits, rank, rank_orders_values, value, Double};
use crate::json::{find, lookup, JsonValue};
use crate::schemas::Document;
use crate::vectorstore::error::StoreError;
use crate::vectorstore::filters::{entry_holds, Filters, Scalar};
use crate::vectorstore::options::VecStoreOptions;
use crate::vectorstore::pgvector::{
    filters_well_shaped,
    resolved_namespace,
    resolved_threshold,
    resolves_filters,
    Store,
};
use crate::vectorstore::sql::{SEARCH_ALL, SEARCH_NEAREST};
use vstd::prelude::*;

verus! {

/// One row that the backend returned to a search.
#[derive(Debug, PartialEq, Eq)]
pub struct SearchRow {
    pub content: String,
    pub namespace: String,
    pub metadata: Vec<(String, JsonValue)>,
    /// The distance between the row's embedding and the query's.
    pub distance: Double,
}

/// A search with its options resolved.
#[derive(Debug, PartialEq, Eq)]
pub struct SearchPlan {
    pub query: String,
    pub namespace: String,
    pub limit: usize,
    pub filters: Filters,
    pub score_threshold: Double,
}

/// Whether a row at `distance` passes `threshold`: a threshold of zero lets
/// every row pass, any other only the rows that are not farther than it.
pub open spec fn passes(threshold: Double, distance: Double) -> bool {
    threshold.spec_is_zero() || rank(distance.bits) <= rank(threshold.bits)
}

/// Whether `row` has the key of `entry` with the value of `entry`.
pub open spec fn member_holds(entry: (String, Scalar), row: SearchRow) -> bool {
    match row.spec_member(entry.0@) {
        Some(value) => entry.1.spec_equals(&value),
        None => false,
    }
}

/// Whether `doc` is what a search returns for `row`: the row's text, the
/// row's distance as score, and the row's metadata behind an entry that
/// names the row's namespace.
pub open spec fn is_document_of(doc: Document, row: SearchRow) -> bool {
    &&& doc.page_content == row.content
    &&& doc.score == row.distance
    &&& doc.metadata@.len() == row.metadata@.len() + 1
    &&& doc.metadata@[0].0@ == "namespace"@
    &&& doc.metadata@[0].1 == JsonValue::String(row.namespace)
    &&& doc.metadata@.skip(1) == row.metadata@
}

/// Whether `docs` are what a search returns for `rows`, one for one.
pub open spec fn are_documents_of(docs: Seq<Document>, rows: Seq<SearchRow>) -> bool {
    &&& docs.len() == rows.len()
    &&& forall|i: int| 0 <= i < rows.len() ==> is_document_of(#[trigger] docs[i], rows[i])
}

/// Whether `docs` are in order: no document has a smaller score than one
/// before it.
pub open spec fn scores_ascend(docs: Seq<Document>) -> bool {
    forall|i: int, j: int|
        0 <= i <= j < docs.len() ==> rank(#[trigger] docs[i].score.bits) <= rank(
            #[trigger] docs[j].score.bits,
        )
}

/// Whether the metadata of `doc` names `namespace` as the document's.
pub open spec fn names_namespace(doc: Document, namespace: Seq<char>) -> bool {
    match lookup(doc.metadata@, "namespace"@) {
        Some(value) => value.spec_as_str() == Some(namespace),
        None => false,
    }
}

/// The place of `row` among `sorted`: before the first row that is not
/// nearer than it.
pub open spec fn place(sorted: Seq<SearchRow>, row: SearchRow) -> int
    decreases sorted.len(),
{
    if sorted.len() == 0 || rank(sorted[0].distance.bits) >= rank(row.distance.bits) {
        0
    } else {
        1 + place(sorted.drop_first(), row)
    }
}

/// Whether `rows` are in order: no row is nearer than one before it.
pub open spec fn ascending(rows: Seq<SearchRow>) -> bool {
    forall|i: int, j: int|
        0 <= i <= j < rows.len() ==> rank(#[trigger] rows[i].distance.bits) <= rank(
            #[trigger] rows[j].distance.bits,
        )
}

impl SearchRow {
    /// The value that the row's document has under `key`.
    pub open spec fn spec_member(&self, key: Seq<char>) -> Option<JsonValue> {
        if key == "namespace"@ {
            Some(JsonValue::String(self.namespace))
        } else {
            lookup(self.metadata@, key)
        }
    }

    /// The document that a search returns for this row.
    pub fn into_document(self) -> (doc: Document)
        ensures
            is_document_of(doc, self),
    {
        let SearchRow { content, namespace, metadata, distance } = self;
        let mut rest: Vec<(String, JsonValue)> = metadata;
        let mut all: Vec<(String, JsonValue)> = Vec::new();
        all.push((String::from_str("namespace"), JsonValue::String(namespace)));
        all.append(&mut rest);
        assert(all@.skip(1) =~= metadata@);
        Document { page_content: content, metadata: all, score: distance }
    }
}

impl SearchPlan {
    /// Whether the plan keeps `row`: it is of the plan's namespace, passes
    /// the threshold, and has every filter's key with that filter's value.
    pub open spec fn spec_admits(&self, row: SearchRow) -> bool {
        &&& row.namespace@ == self.namespace@
        &&& passes(self.score_threshold, row.distance)
        &&& forall|i: int|
            0 <= i < self.filters.entries().len() ==> member_holds(
                #[trigger] self.filters.entries()[i],
                row,
            )
    }

    /// The rows of `rows` that the plan keeps, nearest first. Rows at the
    /// same distance stay in the order they came in.
    pub open spec fn sorted(&self, rows: Seq<SearchRow>) -> Seq<SearchRow>
        decreases rows.len(),
    {
        if rows.len() == 0 {
            Seq::empty()
        } else {
            let rest = self.sorted(rows.drop_first());
            if self.spec_admits(rows[0]) {
                rest.insert(place(rest, rows[0]), rows[0])
            } else {
                rest
            }
        }
    }

    /// The rows that a search returns: the first `limit` of `sorted`.
    pub open spec fn selected(&self, rows: Seq<SearchRow>) -> Seq<SearchRow> {
        if self.sorted(rows).len() > self.limit {
            self.sorted(rows).take(self.limit as int)
        } else {
            self.sorted(rows)
        }
    }

    /// Whether the backend may cut the list at the limit itself: it may
    /// where the plan keeps every row of its namespace.
    pub open spec fn spec_pushes_limit(&self) -> bool {
        self.filters.spec_is_empty() && self.score_threshold.spec_is_zero()
    }

    #[verifier::when_used_as_spec(spec_pushes_limit)]
    pub fn pushes_limit(&self) -> (b: bool)
        ensures
            b == self.spec_pushes_limit(),
    {
        self.filters.is_empty() && self.score_threshold.is_zero()
    }

    /// The limit to hand to the backend, where it may cut the list itself:
    /// the plan's limit, or the largest number that the backend takes.
    pub fn backend_limit(&self) -> (limit: Option<i32>)
        ensures
            limit == if self.spec_pushes_limit() {
                Some(
                    if self.limit <= i32::MAX {
                        self.limit as i32
                    } else {
                        i32::MAX
                    },
                )
            } else {
                None
            },
    {
        if self.pushes_limit() {
            if self.limit <= 0x7fff_ffff {
                Some(self.limit as i32)
            } else {
                Some(i32::MAX)
            }
        } else {
            None
        }
    }

    /// The statement to run: `$1` is the embedding of the query, `$2` the
    /// namespace, and `$3`, where the statement has one, the limit.
    pub fn statement(&self) -> (sql: &'static str)
        ensures
            sql@ == if self.spec_pushes_limit() {
                SEARCH_NEAREST@
            } else {
                SEARCH_ALL@
            },
    {
        if self.pushes_limit() {
            SEARCH_NEAREST
        } else {
            SEARCH_ALL
        }
    }

    /// Whether the plan keeps `row`.
    pub fn admits(&self, row: &SearchRow) -> (b: bool)
        ensures
            b == self.spec_admits(*row),
    {
        if !(row.namespace == self.namespace) {
            return false;
        }
        if !(self.score_threshold.is_zero() || row.distance.le(&self.score_threshold)) {
            return false;
        }
        match &self.filters {
            Filters::Empty => true,
            Filters::FlatMap(entries) => {
                let namespace_key: String = String::from_str("namespace");
                let mut i: usize = 0;
                while i < entries.len()
                    invariant
                        i <= entries.len(),
                        self.filters.entries() == entries@,
                        namespace_key@ == "namespace"@,
                        forall|j: int| 0 <= j < i ==> member_holds(#[trigger] entries@[j], *row),
                    decreases entries.len() - i,
                {
                    let held: bool = if entries[i].0 == namespace_key {
                        match &entries[i].1 {
                            Scalar::String(text) => *text == row.namespace,
                            _ => false,
                        }
                    } else {
                        match find(&row.metadata, entries[i].0.as_str()) {
                            Some(value) => entries[i].1.equals(value),
                            None => false,
                        }
                    };
                    if !held {
                        assert(!member_holds(entries@[i as int], *row));
                        return false;
                    }
                    i = i + 1;
                }
                true
            },
        }
    }

    /// What to return for the rows that the backend returned: the
    /// documents of the rows that the plan selects, which come nearest
    /// first and all from the plan's namespace.
    pub fn finish(&self, rows: Vec<SearchRow>) -> (docs: Vec<Document>)
        ensures
            are_documents_of(docs@, self.selected(rows@)),
            docs@.len() <= self.limit,
            scores_ascend(docs@),
            forall|i: int|
                0 <= i < docs@.len() ==> names_namespace(#[trigger] docs@[i], self.namespace@),
    {
        let ghost given = rows@;
        let mut rows = rows;
        let mut kept: Vec<SearchRow> = Vec::new();
        while rows.len() > 0
            invariant
                rows@.len() <= given.len(),
                rows@ == given.take(rows@.len() as int),
                kept@ == self.sorted(given.skip(rows@.len() as int)),
            decreases rows@.len(),
        {
            let ghost n = rows@.len() as int;
            let row: SearchRow = rows.pop().unwrap();
            proof {
                assert(rows@ =~= given.take(n - 1));
                assert(given.skip(n - 1)[0] == row);
                assert(given.skip(n - 1).drop_first() =~= given.skip(n));
            }
            if self.admits(&row) {
                let at: usize = find_place(&kept, &row);
                kept.insert(at, row);
            }
        }
        proof {
            assert(given.skip(0) =~= given);
        }
        if kept.len() > self.limit {
            kept.truncate(self.limit);
        }
        let ghost chosen = kept@;
        let mut docs: Vec<Document> = Vec::new();
        while kept.len() > 0
            invariant
                kept@.len() <= chosen.len(),
                kept@ == chosen.take(kept@.len() as int),
                docs@.len() == chosen.len() - kept@.len(),
                forall|i: int|
                    0 <= i < docs@.len() ==> is_document_of(
                        #[trigger] docs@[i],
                        chosen[chosen.len() - 1 - i],
                    ),
            decreases kept@.len(),
        {
            let row: SearchRow = kept.pop().unwrap();
            docs.push(row.into_document());
        }
        reverse(&mut docs);
        proof {
            assert forall|i: int, j: int| 0 <= i <= j < docs@.len() implies rank(
                #[trigger] docs@[i].score.bits,
            ) <= rank(#[trigger] docs@[j].score.bits) by {
                results_are_ascending(*self, given, docs@, i, j);
            }
            assert forall|i: int| 0 <= i < docs@.len() implies names_namespace(
                #[trigger] docs@[i],
                self.namespace@,
            ) by {
                results_are_admitted(*self, given, docs@, i);
            }
        }
        docs
    }
}

/// Turns `items` around.
fn reverse<T>(items: &mut Vec<T>)
    ensures
        final(items)@.len() == old(items)@.len(),
        forall|i: int|
            0 <= i < old(items)@.len() ==> final(items)@[i] == old(items)@[old(items)@.len() - 1
                - i],
{
    let ghost given = items@;
    let mut turned: Vec<T> = Vec::new();
    while items.len() > 0
        invariant
            items@.len() <= given.len(),
            items@ == given.take(items@.len() as int),
            turned@.len() == given.len() - items@.len(),
            forall|i: int| 0 <= i < turned@.len() ==> turned@[i] == given[given.len() - 1 - i],
        decreases items@.len(),
    {
        let item: T = items.pop().unwrap();
        turned.push(item);
    }
    items.append(&mut turned);
}

/// A place that has only nearer rows before it and none at it is the place
/// of the row.
pub proof fn lemma_place(sorted: Seq<SearchRow>, row: SearchRow, at: int)
    requires
        0 <= at <= sorted.len(),
        forall|j: int|
            0 <= j < at ==> rank(#[trigger] sorted[j].distance.bits) < rank(row.distance.bits),
        at < sorted.len() ==> rank(sorted[at].distance.bits) >= rank(row.distance.bits),
    ensures
        place(sorted, row) == at,
    decreases at,
{
    if at > 0 {
        let rest = sorted.drop_first();
        assert(rank(sorted[0].distance.bits) < rank(row.distance.bits));
        assert forall|j: int| 0 <= j < at - 1 implies rank(#[trigger] rest[j].distance.bits) < rank(
            row.distance.bits,
        ) by {
            assert(rest[j] == sorted[j + 1]);
        }
        if at < sorted.len() {
            assert(rest[at - 1] == sorted[at]);
        }
        lemma_place(rest, row, at - 1);
    }
}

/// The place of `row` among `sorted`.
fn find_place(sorted: &Vec<SearchRow>, row: &SearchRow) -> (at: usize)
    ensures
        at == place(sorted@, *row),
        at <= sorted@.len(),
{
    let wanted: i64 = row.distance.rank();
    let mut at: usize = 0;
    while at < sorted.len() && sorted[at].distance.rank() < wanted
        invariant
            at <= sorted.len(),
            wanted == rank(row.distance.bits),
            forall|j: int|
                0 <= j < at ==> rank(#[trigger] sorted@[j].distance.bits) < rank(
                    row.distance.bits,
                ),
        decreases sorted.len() - at,
    {
        at = at + 1;
    }
    proof {
        lemma_place(sorted@, *row, at as int);
    }
    at
}

impl<E, P> Store<E, P> {
    /// Plans the search for the documents nearest to `query`.
    ///
    /// The options are resolved first: filters of another shape than a
    /// flat object are refused, then a threshold that is no number from 0
    /// to 1. The namespace is the one given, else the collection's.
    pub fn similarity_search(
        &self,
        query: &str,
        limit: usize,
        opt: &VecStoreOptions<E>,
    ) -> (planned: Result<SearchPlan, StoreError>)
        ensures
            match planned {
                Ok(plan) => {
                    &&& filters_well_shaped(opt.filters)
                    &&& resolves_filters(opt.filters, plan.filters)
                    &&& resolved_threshold(opt.score_threshold) == Some(plan.score_threshold)
                    &&& plan.namespace@ == resolved_namespace(
                        opt.name_space,
                        self.spec_collection_name(),
                    )
                    &&& plan.namespace@.len() > 0
                    &&& plan.query@ == query@
                    &&& plan.limit == limit
                },
                Err(error) => {
                    if !filters_well_shaped(opt.filters) {
                        error == StoreError::InvalidFilterShape
                    } else {
                        &&& resolved_threshold(opt.score_threshold) is None
                        &&& error == StoreError::InvalidScoreThreshold
                    }
                },
            },
    {
        match self.resolve(opt) {
            Ok(context) => Ok(
                SearchPlan {
                    query: String::from_str(query),
                    namespace: context.namespace,
                    limit,
                    filters: context.filters,
                    score_threshold: context.score_threshold,
                },
            ),
            Err(error) => Err(error),
        }
    }
}

/// The place of a row has only nearer rows before it and none at it.
pub proof fn lemma_place_divides(sorted: Seq<SearchRow>, row: SearchRow)
    ensures
        0 <= place(sorted, row) <= sorted.len(),
        forall|j: int|
            0 <= j < place(sorted, row) ==> rank(#[trigger] sorted[j].distance.bits) < rank(
                row.distance.bits,
            ),
        place(sorted, row) < sorted.len() ==> rank(sorted[place(sorted, row)].distance.bits)
            >= rank(row.distance.bits),
    decreases sorted.len(),
{
    if !(sorted.len() == 0 || rank(sorted[0].distance.bits) >= rank(row.distance.bits)) {
        let rest = sorted.drop_first();
        lemma_place_divides(rest, row);
        assert forall|j: int| 0 <= j < place(sorted, row) implies rank(
            #[trigger] sorted[j].distance.bits,
        ) < rank(row.distance.bits) by {
            if j > 0 {
                assert(sorted[j] == rest[j - 1]);
            }
        }
        if place(sorted, row) < sorted.len() {
            assert(sorted[place(sorted, row)] == rest[place(rest, row)]);
        }
    }
}

/// A row put at its place keeps rows that are in order in order.
pub proof fn lemma_insert_ascending(sorted: Seq<SearchRow>, row: SearchRow)
    requires
        ascending(sorted),
    ensures
        ascending(sorted.insert(place(sorted, row), row)),
{
    lemma_place_divides(sorted, row);
    let at = place(sorted, row);
    let grown = sorted.insert(at, row);
    assert forall|i: int, j: int| 0 <= i <= j < grown.len() implies rank(
        #[trigger] grown[i].distance.bits,
    ) <= rank(#[trigger] grown[j].distance.bits) by {
        if i < at {
            assert(grown[i] == sorted[i]);
        } else if i > at {
            assert(grown[i] == sorted[i - 1]);
        }
        if j < at {
            assert(grown[j] == sorted[j]);
        } else if j > at {
            assert(grown[j] == sorted[j - 1]);
            assert(rank(sorted[at].distance.bits) <= rank(sorted[j - 1].distance.bits));
        }
    }
}

/// What `sorted` returns is in order, holds only rows that the plan keeps,
/// and holds each row that the plan keeps as often as `rows` holds it.
pub proof fn lemma_sorted(plan: SearchPlan, rows: Seq<SearchRow>)
    ensures
        ascending(plan.sorted(rows)),
        forall|i: int|
            0 <= i < plan.sorted(rows).len() ==> plan.spec_admits(#[trigger] plan.sorted(rows)[i]),
        plan.sorted(rows).to_multiset() == rows.filter(
            |row: SearchRow| plan.spec_admits(row),
        ).to_multiset(),
    decreases rows.len(),
{
    let keeps = |row: SearchRow| plan.spec_admits(row);
    if rows.len() == 0 {
        assert(rows.filter(keeps) =~= Seq::<SearchRow>::empty()) by {
            reveal(Seq::filter);
        }
    } else {
        let tail = rows.drop_first();
        let rest = plan.sorted(tail);
        lemma_sorted(plan, tail);
        assert(rows =~= seq![rows[0]] + tail);
        tail.lemma_filter_prepend(rows[0], keeps);
        if plan.spec_admits(rows[0]) {
            let at = place(rest, rows[0]);
            lemma_place_divides(rest, rows[0]);
            lemma_insert_ascending(rest, rows[0]);
            let grown = rest.insert(at, rows[0]);
            assert forall|i: int| 0 <= i < grown.len() implies plan.spec_admits(
                #[trigger] grown[i],
            ) by {
                if i < at {
                    assert(grown[i] == rest[i]);
                } else if i > at {
                    assert(grown[i] == rest[i - 1]);
                }
            }
            vstd::seq_lib::to_multiset_insert(rest, at, rows[0]);
            let kept = seq![rows[0]] + tail.filter(keeps);
            assert(kept.drop_first() =~= tail.filter(keeps));
            assert(kept.to_multiset() =~= tail.filter(keeps).to_multiset().insert(rows[0])) by {
                kept.to_multiset_ensures();
                vstd::seq_lib::to_multiset_insert(tail.filter(keeps), 0, rows[0]);
                assert(tail.filter(keeps).insert(0, rows[0]) =~= kept);
            }
        } else {
            assert(Seq::<SearchRow>::empty() + tail.filter(keeps) =~= tail.filter(keeps));
        }
    }
}

/// Rows that the plan keeps and that are in order come out as they went in.
pub proof fn lemma_sorted_leaves_ordered_rows(plan: SearchPlan, rows: Seq<SearchRow>)
    requires
        ascending(rows),
        forall|i: int| 0 <= i < rows.len() ==> plan.spec_admits(#[trigger] rows[i]),
    ensures
        plan.sorted(rows) == rows,
    decreases rows.len(),
{
    if rows.len() > 0 {
        let tail = rows.drop_first();
        assert forall|i: int| 0 <= i < tail.len() implies plan.spec_admits(#[trigger] tail[i]) by {
            assert(tail[i] == rows[i + 1]);
        }
        assert forall|i: int, j: int| 0 <= i <= j < tail.len() implies rank(
            #[trigger] tail[i].distance.bits,
        ) <= rank(#[trigger] tail[j].distance.bits) by {
            assert(tail[i] == rows[i + 1]);
            assert(tail[j] == rows[j + 1]);
        }
        lemma_sorted_leaves_ordered_rows(plan, tail);
        if tail.len() > 0 {
            assert(tail[0] == rows[1]);
        }
        assert(place(tail, rows[0]) == 0);
        assert(tail.insert(0, rows[0]) =~= rows);
    }
}

/// The document of a row has under every key what the row has under it.
pub proof fn lemma_document_members(doc: Document, row: SearchRow, key: Seq<char>)
    requires
        is_document_of(doc, row),
    ensures
        lookup(doc.metadata@, key) == row.spec_member(key),
{
    assert(doc.metadata@.drop_first() =~= doc.metadata@.skip(1));
}

/// A search returns its documents nearest first.
///
/// Of two documents that a search returns, the one that comes first is not
/// farther from the query than the other. Distances are compared as the
/// numbers they are, and a distance that is no number counts as the
/// farthest.
pub proof fn results_are_ascending(
    plan: SearchPlan,
    rows: Seq<SearchRow>,
    docs: Seq<Document>,
    i: int,
    j: int,
)
    requires
        are_documents_of(docs, plan.selected(rows)),
        0 <= i <= j < docs.len(),
    ensures
        rank(docs[i].score.bits) <= rank(docs[j].score.bits),
{
    lemma_sorted(plan, rows);
    let chosen = plan.selected(rows);
    assert(chosen[i] == plan.sorted(rows)[i]);
    assert(chosen[j] == plan.sorted(rows)[j]);
    assert(is_document_of(docs[i], chosen[i]));
    assert(is_document_of(docs[j], chosen[j]));
}

/// A search returns its documents in the order of their distances as
/// numbers.
///
/// Of two documents that a search returns and whose distances are numbers,
/// the one that comes first has the smaller distance or the same.
pub proof fn results_ascend_as_numbers(
    plan: SearchPlan,
    rows: Seq<SearchRow>,
    docs: Seq<Document>,
    i: int,
    j: int,
)
    requires
        are_documents_of(docs, plan.selected(rows)),
        0 <= i <= j < docs.len(),
        !nan_bits(docs[i].score.bits),
        !nan_bits(docs[j].score.bits),
    ensures
        value(docs[i].score.bits) <= value(docs[j].score.bits),
{
    results_are_ascending(plan, rows, docs, i, j);
    rank_orders_values(docs[i].score.bits, docs[j].score.bits);
}

/// What passes a threshold is a number that is not larger than it.
///
/// A distance that passes a threshold other than zero is a number, and as
/// a number it is at most the threshold.
pub proof fn passing_is_not_farther(threshold: Double, distance: Double)
    requires
        !nan_bits(threshold.bits),
        !threshold.spec_is_zero(),
        passes(threshold, distance),
    ensures
        !nan_bits(distance.bits),
        value(distance.bits) <= value(threshold.bits),
{
    rank_orders_values(distance.bits, threshold.bits);
}

/// A search returns only what its plan keeps.
///
/// Every document that a search returns comes from a row of the plan's
/// namespace and says so in its metadata, passes the plan's threshold, and
/// meets the plan's filters. A row of another namespace is never returned.
pub proof fn results_are_admitted(
    plan: SearchPlan,
    rows: Seq<SearchRow>,
    docs: Seq<Document>,
    i: int,
)
    requires
        are_documents_of(docs, plan.selected(rows)),
        0 <= i < docs.len(),
    ensures
        plan.spec_admits(plan.selected(rows)[i]),
        plan.selected(rows)[i].namespace@ == plan.namespace@,
        lookup(docs[i].metadata@, "namespace"@) == Some(
            JsonValue::String(plan.selected(rows)[i].namespace),
        ),
        passes(plan.score_threshold, docs[i].score),
        plan.filters.spec_admits(docs[i].metadata@),
{
    lemma_sorted(plan, rows);
    let chosen = plan.selected(rows);
    let row = chosen[i];
    assert(row == plan.sorted(rows)[i]);
    assert(is_document_of(docs[i], row));
    lemma_document_members(docs[i], row, "namespace"@);
    assert forall|k: int| 0 <= k < plan.filters.entries().len() implies entry_holds(
        #[trigger] plan.filters.entries()[k],
        docs[i].metadata@,
    ) by {
        let entry = plan.filters.entries()[k];
        assert(member_holds(entry, row));
        lemma_document_members(docs[i], row, entry.0@);
    }
}

/// A search returns nothing of another namespace.
///
/// A row that was stored under a namespace other than the one the search
/// is for is not among the rows that the search selects, whatever else the
/// backend returned and whatever the limit.
pub proof fn other_namespaces_stay_out(plan: SearchPlan, rows: Seq<SearchRow>, row: SearchRow)
    requires
        row.namespace@ != plan.namespace@,
    ensures
        !plan.selected(rows).contains(row),
{
    lemma_sorted(plan, rows);
    if plan.selected(rows).contains(row) {
        let at = choose|i: int| 0 <= i < plan.selected(rows).len() && plan.selected(rows)[i] == row;
        assert(plan.selected(rows)[at] == plan.sorted(rows)[at]);
        assert(plan.spec_admits(plan.sorted(rows)[at]));
    }
}

/// A search returns the nearest of what its plan keeps.
///
/// A row that the plan keeps and the search does not return is at least as
/// far from the query as every row that the search returns, and is left out
/// only where the limit is reached.
pub proof fn results_are_the_nearest(plan: SearchPlan, rows: Seq<SearchRow>, at: int, i: int)
    requires
        0 <= at < rows.len(),
        plan.spec_admits(rows[at]),
        !plan.selected(rows).contains(rows[at]),
        0 <= i < plan.selected(rows).len(),
    ensures
        plan.selected(rows).len() == plan.limit,
        rank(plan.selected(rows)[i].distance.bits) <= rank(rows[at].distance.bits),
{
    let keeps = |row: SearchRow| plan.spec_admits(row);
    let all = plan.sorted(rows);
    lemma_sorted(plan, rows);
    assert(rows.filter(keeps).contains(rows[at])) by {
        broadcast use Seq::lemma_filter_contains_rev;

        assert(rows.contains(rows[at]));
        assert(keeps(rows[at]));
    }
    vstd::seq_lib::to_multiset_contains(rows.filter(keeps), rows[at]);
    vstd::seq_lib::to_multiset_contains(all, rows[at]);
    assert(all.contains(rows[at]));
    let found = choose|k: int| 0 <= k < all.len() && all[k] == rows[at];
    if all.len() > plan.limit {
        let chosen = all.take(plan.limit as int);
        if found < plan.limit {
            assert(chosen[found] == rows[at]);
            assert(chosen.contains(rows[at]));
        }
        assert(chosen[i] == all[i]);
    } else {
        assert(all[found] == rows[at]);
    }
}

/// Rows that the backend has already filtered, ordered and cut pass through
/// unchanged.
pub proof fn finished_rows_stay(plan: SearchPlan, rows: Seq<SearchRow>)
    requires
        ascending(rows),
        forall|i: int| 0 <= i < rows.len() ==> plan.spec_admits(#[trigger] rows[i]),
        rows.len() <= plan.limit,
    ensures
        plan.selected(rows) == rows,
{
    lemma_sorted_leaves_ordered_rows(plan, rows);
}

} // verus!
