//! Adding documents: one batch, one transaction.
//!
//! The work alternates between deciding and waiting: for the embedding
//! provider, for the backend to open a transaction, for each row, for the
//! commit. `Ingest` holds the deciding. Its owner waits, tells the machine
//! what came back, and does what the machine answers.
//!
//! A new machine waits for the embeddings of `texts`. From there:
//!
//! | the machine waits for      | it hears            | it answers                      |
//! |----------------------------|---------------------|---------------------------------|
//! | the embeddings             | `Embedded`          | `OpenTransaction`, or `Abort`   |
//! | the transaction            | `TransactionOpened` | `Insert(0)`, or `Commit`        |
//! | row `i`                    | `RowInserted`       | `Insert(i + 1)`, or `Commit`    |
//! | the commit                 | `Committed`         | `Finish`                        |
//! | any of them                | a failure           | `Abort`                         |
//!
//! On `Abort` the owner lets go of the transaction if one is open, which
//! rolls it back, and returns the error. On `Finish` it returns the
//! identities. `Table` describes a backend with transactions, and
//! `add_documents_is_atomic` proves that against such a backend a batch is
//! stored whole or not at all.

use crate::double::Double;
use crate::json::JsonValue;
use crate::schemas::Document;
use crate::text::texts_of;
use crate::vectorstore::error::{StoreError, StoreErrorView};
use crate::vectorstore::identity::{fresh_identity, is_identity};
use crate::vectorstore::options::VecStoreOptions;
use crate::vectorstore::pgvector::Store;
use vstd::prelude::*;

verus! {

/// What the machine waits for, or how it ended.
#[derive(Clone, Copy, Debug, PartialEq, Eq, Structural)]
pub enum IngestPhase {
    /// Waiting for the embeddings.
    Embedding,
    /// Waiting for the transaction.
    Opening,
    /// Waiting for the row that was last asked for.
    Inserting,
    /// Waiting for the commit.
    Committing,
    /// The batch is stored.
    Done,
    /// The batch is not stored.
    Failed,
}

/// What the owner tells the machine.
#[derive(Debug, PartialEq, Eq)]
pub enum IngestEvent {
    /// The embedding provider returned these vectors.
    Embedded(Vec<Vec<Double>>),
    /// The embedding provider failed with this message.
    EmbeddingFailed(String),
    /// The backend opened a transaction.
    TransactionOpened,
    /// The backend took the row.
    RowInserted,
    /// The backend committed the transaction.
    Committed,
    /// The backend failed with this message.
    BackendFailed(String),
}

/// What the machine tells the owner to do next.
#[derive(Debug, PartialEq, Eq)]
pub enum IngestAction {
    /// Open a transaction.
    OpenTransaction,
    /// Insert the row of this index inside the transaction.
    Insert(usize),
    /// Commit the transaction.
    Commit,
    /// Return the identities: the batch is stored.
    Finish,
    /// Roll back and return this error.
    Abort(StoreError),
}

/// An action by its meaning.
pub enum ActionView {
    OpenTransaction,
    Insert(nat),
    Commit,
    Finish,
    Abort(StoreErrorView),
}

impl View for IngestAction {
    type V = ActionView;

    open spec fn view(&self) -> ActionView {
        match self {
            IngestAction::OpenTransaction => ActionView::OpenTransaction,
            IngestAction::Insert(i) => ActionView::Insert(*i as nat),
            IngestAction::Commit => ActionView::Commit,
            IngestAction::Finish => ActionView::Finish,
            IngestAction::Abort(e) => ActionView::Abort(e@),
        }
    }
}

/// A row of the embedding table, by its contents.
pub struct RowView {
    pub id: Seq<char>,
    pub document_text: Seq<char>,
    pub embedding: Seq<Double>,
    pub metadata: Seq<(String, JsonValue)>,
    pub collection_id: Seq<char>,
    pub namespace: Seq<char>,
}

/// A row of the embedding table, lent by the machine that planned it.
#[derive(Debug)]
pub struct EmbeddedRow<'a> {
    pub id: &'a str,
    pub document_text: &'a str,
    pub embedding: &'a Vec<Double>,
    pub metadata: &'a Vec<(String, JsonValue)>,
    pub collection_id: &'a str,
    pub namespace: &'a str,
}

impl<'a> View for EmbeddedRow<'a> {
    type V = RowView;

    open spec fn view(&self) -> RowView {
        RowView {
            id: self.id@,
            document_text: self.document_text@,
            embedding: self.embedding@,
            metadata: self.metadata@,
            collection_id: self.collection_id@,
            namespace: self.namespace@,
        }
    }
}

/// The message of an event that answers no question the machine asked.
pub open spec fn out_of_order() -> Seq<char> {
    "event out of order"@
}

/// The machine by its meaning.
pub struct IngestView {
    pub phase: IngestPhase,
    /// The batch.
    pub docs: Seq<Document>,
    /// The identity of the collection the rows go to.
    pub collection_id: Seq<char>,
    /// The namespace the rows go to.
    pub namespace: Seq<char>,
    /// The embeddings, once they have come.
    pub vectors: Seq<Vec<Double>>,
    /// The identities given out so far, the first to the first document.
    pub ids: Seq<Seq<char>>,
    /// The number of rows the backend has taken.
    pub inserted: nat,
}

impl IngestView {
    /// The row of document `i`.
    pub open spec fn row(self, i: int) -> RowView {
        RowView {
            id: self.ids[i],
            document_text: self.docs[i].page_content@,
            embedding: self.vectors[i]@,
            metadata: self.docs[i].metadata@,
            collection_id: self.collection_id,
            namespace: self.namespace,
        }
    }

    /// The rows of the first `n` documents.
    pub open spec fn rows(self, n: nat) -> Seq<RowView> {
        Seq::new(n, |i: int| self.row(i))
    }

    /// A machine that has heard nothing yet.
    pub open spec fn fresh(self) -> bool {
        &&& self.phase == IngestPhase::Embedding
        &&& self.vectors.len() == 0
        &&& self.ids.len() == 0
        &&& self.inserted == 0
    }

    /// What holds of every machine, whatever it has heard.
    pub open spec fn wf(self) -> bool {
        match self.phase {
            IngestPhase::Embedding => self.fresh(),
            IngestPhase::Opening => {
                &&& self.vectors.len() == self.docs.len()
                &&& self.ids.len() == 0
                &&& self.inserted == 0
            },
            IngestPhase::Inserting => {
                &&& self.vectors.len() == self.docs.len()
                &&& self.inserted < self.docs.len()
                &&& self.ids.len() == self.inserted + 1
            },
            IngestPhase::Committing | IngestPhase::Done => {
                &&& self.vectors.len() == self.docs.len()
                &&& self.inserted == self.docs.len()
                &&& self.ids.len() == self.docs.len()
            },
            IngestPhase::Failed => {
                &&& self.ids.len() <= self.docs.len()
                &&& self.ids.len() > 0 ==> self.vectors.len() == self.docs.len()
            },
        }
    }

    /// The same machine, ended without the batch stored.
    pub open spec fn failed(self) -> IngestView {
        IngestView { phase: IngestPhase::Failed, ..self }
    }

    /// Whether hearing `event` makes the machine give out an identity.
    pub open spec fn mints(self, event: IngestEvent) -> bool {
        match (self.phase, event) {
            (IngestPhase::Opening, IngestEvent::TransactionOpened) => self.inserted
                < self.docs.len(),
            (IngestPhase::Inserting, IngestEvent::RowInserted) => self.inserted + 1
                < self.docs.len(),
            _ => false,
        }
    }

    /// With a transaction open and `self.inserted` rows taken: the next row
    /// under the identity `fresh`, or the commit where no row is left.
    pub open spec fn proceed(self, fresh: Seq<char>) -> (IngestView, ActionView) {
        if self.inserted < self.docs.len() {
            (
                IngestView { phase: IngestPhase::Inserting, ids: self.ids.push(fresh), ..self },
                ActionView::Insert(self.inserted),
            )
        } else {
            (IngestView { phase: IngestPhase::Committing, ..self }, ActionView::Commit)
        }
    }

    /// The machine after it has heard `event`, and its answer. `fresh` is
    /// the identity it gives out if it gives one out.
    pub open spec fn next(self, event: IngestEvent, fresh: Seq<char>) -> (IngestView, ActionView) {
        match (self.phase, event) {
            (IngestPhase::Done, _) => (self, ActionView::Finish),
            (IngestPhase::Failed, _) => (
                self,
                ActionView::Abort(StoreErrorView::BackendFailure(out_of_order())),
            ),
            (IngestPhase::Embedding, IngestEvent::Embedded(vectors)) => {
                if vectors@.len() == self.docs.len() {
                    (
                        IngestView { phase: IngestPhase::Opening, vectors: vectors@, ..self },
                        ActionView::OpenTransaction,
                    )
                } else {
                    (self.failed(), ActionView::Abort(StoreErrorView::EmbeddingCountMismatch))
                }
            },
            (IngestPhase::Embedding, IngestEvent::EmbeddingFailed(message)) => (
                self.failed(),
                ActionView::Abort(StoreErrorView::EmbeddingProviderFailure(message@)),
            ),
            (IngestPhase::Opening, IngestEvent::TransactionOpened) => self.proceed(fresh),
            (IngestPhase::Inserting, IngestEvent::RowInserted) => IngestView {
                inserted: self.inserted + 1,
                ..self
            }.proceed(fresh),
            (IngestPhase::Committing, IngestEvent::Committed) => (
                IngestView { phase: IngestPhase::Done, ..self },
                ActionView::Finish,
            ),
            (_, IngestEvent::BackendFailed(message)) => (
                self.failed(),
                ActionView::Abort(StoreErrorView::BackendFailure(message@)),
            ),
            _ => (
                self.failed(),
                ActionView::Abort(StoreErrorView::BackendFailure(out_of_order())),
            ),
        }
    }
}

/// One event keeps a machine well formed.
pub proof fn lemma_next_well_formed(machine: IngestView, event: IngestEvent, fresh: Seq<char>)
    requires
        machine.wf(),
    ensures
        machine.next(event, fresh).0.wf(),
{
}

/// The machine that adds one batch of documents.
pub struct Ingest<'a> {
    docs: &'a [Document],
    collection_id: &'a str,
    namespace: &'a str,
    phase: IngestPhase,
    vectors: Vec<Vec<Double>>,
    ids: Vec<String>,
    inserted: usize,
}

impl<'a> View for Ingest<'a> {
    type V = IngestView;

    closed spec fn view(&self) -> IngestView {
        IngestView {
            phase: self.phase,
            docs: self.docs@,
            collection_id: self.collection_id@,
            namespace: self.namespace@,
            vectors: self.vectors@,
            ids: texts_of(self.ids@),
            inserted: self.inserted as nat,
        }
    }
}

impl<'a> Ingest<'a> {
    #[verifier::type_invariant]
    spec fn well_formed(self) -> bool {
        self@.wf()
    }

    /// A machine for `docs` that has heard nothing yet.
    pub fn new(docs: &'a [Document], collection_id: &'a str, namespace: &'a str) -> (machine: Self)
        ensures
            machine@.fresh(),
            machine@.docs == docs@,
            machine@.collection_id == collection_id@,
            machine@.namespace == namespace@,
    {
        Ingest {
            docs,
            collection_id,
            namespace,
            phase: IngestPhase::Embedding,
            vectors: Vec::new(),
            ids: Vec::new(),
            inserted: 0,
        }
    }

    pub fn phase(&self) -> (phase: IngestPhase)
        ensures
            phase == self@.phase,
    {
        self.phase
    }

    /// The texts to embed: the content of each document, in order.
    pub fn texts(&self) -> (texts: Vec<String>)
        ensures
            texts@.len() == self@.docs.len(),
            forall|i: int| 0 <= i < texts@.len() ==> texts@[i]@ == self@.docs[i].page_content@,
    {
        let mut texts: Vec<String> = Vec::new();
        let mut i: usize = 0;
        while i < self.docs.len()
            invariant
                i <= self.docs.len(),
                texts@.len() == i,
                forall|j: int| 0 <= j < i ==> texts@[j]@ == self.docs@[j].page_content@,
            decreases self.docs.len() - i,
        {
            texts.push(self.docs[i].page_content.clone());
            i = i + 1;
        }
        texts
    }

    /// The row of document `index`, once it has an identity.
    pub fn row(&self, index: usize) -> (row: Option<EmbeddedRow<'_>>)
        ensures
            row is Some <==> index < self@.ids.len(),
            row is Some ==> row->0@ == self@.row(index as int),
    {
        proof {
            use_type_invariant(self);
        }
        if index < self.ids.len() {
            Some(
                EmbeddedRow {
                    id: self.ids[index].as_str(),
                    document_text: self.docs[index].page_content.as_str(),
                    embedding: &self.vectors[index],
                    metadata: &self.docs[index].metadata,
                    collection_id: self.collection_id,
                    namespace: self.namespace,
                },
            )
        } else {
            None
        }
    }

    /// The identities given out so far. Once the machine is `Done` there is
    /// one for each document, in the order of the documents.
    pub fn into_ids(self) -> (ids: Vec<String>)
        ensures
            texts_of(ids@) == self@.ids,
            self@.phase == IngestPhase::Done ==> ids@.len() == self@.docs.len(),
    {
        proof {
            use_type_invariant(&self);
        }
        self.ids
    }

    /// Whether hearing `event` makes the machine give out an identity.
    pub fn mints(&self, event: &IngestEvent) -> (b: bool)
        ensures
            b == self@.mints(*event),
    {
        proof {
            use_type_invariant(self);
        }
        let count: usize = self.docs.len();
        match (self.phase, event) {
            (IngestPhase::Opening, IngestEvent::TransactionOpened) => self.inserted < count,
            (IngestPhase::Inserting, IngestEvent::RowInserted) => self.inserted + 1 < count,
            _ => false,
        }
    }

    /// The machine after `event`, and its answer, where `fresh` is the
    /// identity to give out if one is given out.
    pub fn advance(self, event: IngestEvent, fresh: String) -> (after: (Ingest<'a>, IngestAction))
        ensures
            (after.0@, after.1@) == self@.next(event, fresh@),
            self@.wf(),
            after.0@.wf(),
    {
        proof {
            use_type_invariant(&self);
            lemma_next_well_formed(self@, event, fresh@);
        }
        let Ingest { docs, collection_id, namespace, phase, vectors, ids, inserted } = self;
        let count: usize = docs.len();
        match (phase, event) {
            (IngestPhase::Done, _) => (
                Ingest { docs, collection_id, namespace, phase, vectors, ids, inserted },
                IngestAction::Finish,
            ),
            (IngestPhase::Failed, _) => (
                Ingest { docs, collection_id, namespace, phase, vectors, ids, inserted },
                IngestAction::Abort(
                    StoreError::BackendFailure(String::from_str("event out of order")),
                ),
            ),
            (IngestPhase::Embedding, IngestEvent::Embedded(given)) => {
                if given.len() == count {
                    (
                        Ingest {
                            docs,
                            collection_id,
                            namespace,
                            phase: IngestPhase::Opening,
                            vectors: given,
                            ids,
                            inserted,
                        },
                        IngestAction::OpenTransaction,
                    )
                } else {
                    (
                        Ingest {
                            docs,
                            collection_id,
                            namespace,
                            phase: IngestPhase::Failed,
                            vectors,
                            ids,
                            inserted,
                        },
                        IngestAction::Abort(StoreError::EmbeddingCountMismatch),
                    )
                }
            },
            (IngestPhase::Embedding, IngestEvent::EmbeddingFailed(message)) => (
                Ingest {
                    docs,
                    collection_id,
                    namespace,
                    phase: IngestPhase::Failed,
                    vectors,
                    ids,
                    inserted,
                },
                IngestAction::Abort(StoreError::EmbeddingProviderFailure(message)),
            ),
            (IngestPhase::Opening, IngestEvent::TransactionOpened) => Self::proceed(
                docs,
                collection_id,
                namespace,
                vectors,
                ids,
                inserted,
                fresh,
            ),
            (IngestPhase::Inserting, IngestEvent::RowInserted) => Self::proceed(
                docs,
                collection_id,
                namespace,
                vectors,
                ids,
                inserted + 1,
                fresh,
            ),
            (IngestPhase::Committing, IngestEvent::Committed) => (
                Ingest {
                    docs,
                    collection_id,
                    namespace,
                    phase: IngestPhase::Done,
                    vectors,
                    ids,
                    inserted,
                },
                IngestAction::Finish,
            ),
            (_, IngestEvent::BackendFailed(message)) => (
                Ingest {
                    docs,
                    collection_id,
                    namespace,
                    phase: IngestPhase::Failed,
                    vectors,
                    ids,
                    inserted,
                },
                IngestAction::Abort(StoreError::BackendFailure(message)),
            ),
            _ => (
                Ingest {
                    docs,
                    collection_id,
                    namespace,
                    phase: IngestPhase::Failed,
                    vectors,
                    ids,
                    inserted,
                },
                IngestAction::Abort(
                    StoreError::BackendFailure(String::from_str("event out of order")),
                ),
            ),
        }
    }

    fn proceed(
        docs: &'a [Document],
        collection_id: &'a str,
        namespace: &'a str,
        vectors: Vec<Vec<Double>>,
        ids: Vec<String>,
        inserted: usize,
        fresh: String,
    ) -> (after: (Ingest<'a>, IngestAction))
        requires
            vectors@.len() == docs@.len(),
            inserted <= docs@.len(),
            ids@.len() == inserted,
        ensures
            (after.0@, after.1@) == (IngestView {
                phase: IngestPhase::Opening,
                docs: docs@,
                collection_id: collection_id@,
                namespace: namespace@,
                vectors: vectors@,
                ids: texts_of(ids@),
                inserted: inserted as nat,
            }).proceed(fresh@),
    {
        if inserted < docs.len() {
            let mut ids = ids;
            let ghost before = ids@;
            ids.push(fresh);
            assert(texts_of(ids@) =~= texts_of(before).push(fresh@));
            (
                Ingest {
                    docs,
                    collection_id,
                    namespace,
                    phase: IngestPhase::Inserting,
                    vectors,
                    ids,
                    inserted,
                },
                IngestAction::Insert(inserted),
            )
        } else {
            (
                Ingest {
                    docs,
                    collection_id,
                    namespace,
                    phase: IngestPhase::Committing,
                    vectors,
                    ids,
                    inserted,
                },
                IngestAction::Commit,
            )
        }
    }

    /// The machine after `event`, and its answer. An identity that the
    /// machine gives out is a new random one.
    pub fn step(self, event: IngestEvent) -> (after: (Ingest<'a>, IngestAction))
        ensures
            self@.wf(),
            after.0@.wf(),
            self@.mints(event) ==> after.0@.ids.len() > 0 && is_identity(after.0@.ids.last()),
            (after.0@, after.1@) == self@.next(
                event,
                if self@.mints(event) {
                    after.0@.ids.last()
                } else {
                    Seq::empty()
                },
            ),
    {
        proof {
            use_type_invariant(&self);
        }
        if self.mints(&event) {
            let fresh: String = fresh_identity();
            self.advance(event, fresh)
        } else {
            self.advance(event, String::new())
        }
    }
}

/// Whether a call sets an option that only a search takes.
pub open spec fn sets_search_option<E>(opt: VecStoreOptions<E>) -> bool {
    opt.score_threshold is Some || opt.filters is Some || opt.name_space is Some
}

impl<E, P> Store<E, P> {
    /// Starts adding `docs` to the collection.
    ///
    /// A call that sets a score threshold, filters or a namespace is
    /// refused at once. Otherwise the machine that comes back waits for the
    /// embeddings of its `texts`, to be asked of `active_embedder`. The rows
    /// go to the collection's own namespace.
    pub fn add_documents<'a>(&'a self, docs: &'a [Document], opt: &VecStoreOptions<E>) -> (started:
        Result<Ingest<'a>, StoreError>)
        ensures
            started is Err <==> sets_search_option(*opt),
            started is Err ==> started->Err_0 == StoreError::UnsupportedOption,
            started is Ok ==> {
                let machine = started->Ok_0@;
                &&& machine.fresh()
                &&& machine.docs == docs@
                &&& machine.collection_id == self.spec_collection_uuid()
                &&& machine.namespace == self.spec_collection_name()
            },
    {
        if opt.score_threshold.is_some() || opt.filters.is_some() || opt.name_space.is_some() {
            return Err(StoreError::UnsupportedOption);
        }
        Ok(Ingest::new(docs, self.collection_uuid(), self.collection_name()))
    }
}

/// The embedding table of a backend with transactions: the rows that a
/// reader sees, and the rows of the open transaction if one is open.
pub struct Table {
    pub committed: Seq<RowView>,
    pub pending: Option<Seq<RowView>>,
}

impl Table {
    /// The table once the backend has answered `event` to a machine in the
    /// state `machine`.
    ///
    /// A transaction opens empty. A row that the backend took joins the
    /// open transaction. A commit that the backend confirmed makes the rows
    /// of the transaction visible, in the order they were inserted. After
    /// anything else no transaction is open: none was, or the machine has
    /// answered `Abort` and the transaction was rolled back.
    pub open spec fn after(self, machine: IngestView, event: IngestEvent) -> Table {
        match (machine.phase, event, self.pending) {
            (IngestPhase::Opening, IngestEvent::TransactionOpened, _) => Table {
                committed: self.committed,
                pending: Some(Seq::empty()),
            },
            (IngestPhase::Inserting, IngestEvent::RowInserted, Some(rows)) => Table {
                committed: self.committed,
                pending: Some(rows.push(machine.row(machine.inserted as int))),
            },
            (IngestPhase::Committing, IngestEvent::Committed, Some(rows)) => Table {
                committed: self.committed + rows,
                pending: None,
            },
            _ => Table { committed: self.committed, pending: None },
        }
    }
}

/// The machine and the table after the machine has heard `heard`, one event
/// after the other, each with the identity on offer when it was heard.
pub open spec fn run(machine: IngestView, table: Table, heard: Seq<(IngestEvent, Seq<char>)>) -> (
    IngestView,
    Table,
)
    decreases heard.len(),
{
    if heard.len() == 0 {
        (machine, table)
    } else {
        run(
            machine.next(heard[0].0, heard[0].1).0,
            table.after(machine, heard[0].0),
            heard.drop_first(),
        )
    }
}

/// Whether `table` is what a machine in the state `machine` has made of a
/// table that showed the rows `before`.
pub open spec fn agrees(machine: IngestView, table: Table, before: Seq<RowView>) -> bool {
    match machine.phase {
        IngestPhase::Embedding | IngestPhase::Opening | IngestPhase::Failed => {
            &&& table.committed == before
            &&& table.pending is None
        },
        IngestPhase::Inserting => {
            &&& table.committed == before
            &&& table.pending == Some(machine.rows(machine.inserted))
        },
        IngestPhase::Committing => {
            &&& table.committed == before
            &&& table.pending == Some(machine.rows(machine.docs.len()))
        },
        IngestPhase::Done => {
            &&& table.committed == before + machine.rows(machine.docs.len())
            &&& table.pending is None
        },
    }
}

/// One event keeps the machine well formed and the table in agreement with
/// it, and changes neither the batch nor where it goes.
pub proof fn lemma_step_agrees(
    machine: IngestView,
    table: Table,
    before: Seq<RowView>,
    event: IngestEvent,
    fresh: Seq<char>,
)
    requires
        machine.wf(),
        agrees(machine, table, before),
    ensures
        machine.next(event, fresh).0.wf(),
        agrees(machine.next(event, fresh).0, table.after(machine, event), before),
        machine.next(event, fresh).0.docs == machine.docs,
        machine.next(event, fresh).0.collection_id == machine.collection_id,
        machine.next(event, fresh).0.namespace == machine.namespace,
        machine.phase == IngestPhase::Failed ==> machine.next(event, fresh).0.phase
            == IngestPhase::Failed,
{
    let after = machine.next(event, fresh).0;
    match (machine.phase, event) {
        (IngestPhase::Opening, IngestEvent::TransactionOpened) => {
            assert(after.rows(0) =~= Seq::<RowView>::empty());
        },
        (IngestPhase::Inserting, IngestEvent::RowInserted) => {
            let taken = machine.inserted + 1;
            assert(after.rows(taken as nat) =~= machine.rows(machine.inserted).push(
                machine.row(machine.inserted as int),
            ));
        },
        (IngestPhase::Committing, IngestEvent::Committed) => {
            assert(after.rows(machine.docs.len()) =~= machine.rows(machine.docs.len()));
        },
        _ => {},
    }
}

/// However many events the machine hears, it stays well formed and the
/// table stays in agreement with it.
pub proof fn lemma_run_agrees(
    machine: IngestView,
    table: Table,
    before: Seq<RowView>,
    heard: Seq<(IngestEvent, Seq<char>)>,
)
    requires
        machine.wf(),
        agrees(machine, table, before),
    ensures
        run(machine, table, heard).0.wf(),
        agrees(run(machine, table, heard).0, run(machine, table, heard).1, before),
        run(machine, table, heard).0.docs == machine.docs,
        run(machine, table, heard).0.collection_id == machine.collection_id,
        run(machine, table, heard).0.namespace == machine.namespace,
        machine.phase == IngestPhase::Failed ==> run(machine, table, heard).0.phase
            == IngestPhase::Failed,
    decreases heard.len(),
{
    if heard.len() > 0 {
        lemma_step_agrees(machine, table, before, heard[0].0, heard[0].1);
        lemma_run_agrees(
            machine.next(heard[0].0, heard[0].1).0,
            table.after(machine, heard[0].0),
            before,
            heard.drop_first(),
        );
    }
}

/// A batch is stored whole or not at all.
///
/// Take a table that shows the rows `before` and has no transaction open,
/// and a new machine. Whatever the machine hears afterwards, and whatever
/// identities it is offered: once it is `Done` the table shows `before`
/// followed by one row for each document, in the order of the documents;
/// as long as it is not `Done` the table shows `before` and nothing else;
/// and once it has `Failed` no transaction is left open.
pub proof fn add_documents_is_atomic(
    machine: IngestView,
    before: Seq<RowView>,
    heard: Seq<(IngestEvent, Seq<char>)>,
)
    requires
        machine.fresh(),
    ensures
        ({
            let (end, table) = run(machine, Table { committed: before, pending: None }, heard);
            &&& end.phase == IngestPhase::Done ==> table.committed == before + end.rows(
                machine.docs.len(),
            ) && table.pending is None
            &&& end.phase != IngestPhase::Done ==> table.committed == before
            &&& end.phase == IngestPhase::Failed ==> table.pending is None
        }),
{
    lemma_run_agrees(machine, Table { committed: before, pending: None }, before, heard);
}

/// Hearing one list of events and then another is hearing them in one go.
pub proof fn lemma_run_splits(
    machine: IngestView,
    table: Table,
    first: Seq<(IngestEvent, Seq<char>)>,
    second: Seq<(IngestEvent, Seq<char>)>,
)
    ensures
        run(machine, table, first + second) == run(
            run(machine, table, first).0,
            run(machine, table, first).1,
            second,
        ),
    decreases first.len(),
{
    if first.len() == 0 {
        assert(first + second =~= second);
    } else {
        let all = first + second;
        assert(all[0] == first[0]);
        assert(all.drop_first() =~= first.drop_first() + second);
        lemma_run_splits(
            machine.next(first[0].0, first[0].1).0,
            table.after(machine, first[0].0),
            first.drop_first(),
            second,
        );
    }
}

/// A row that fails takes the whole batch with it.
///
/// Where the backend fails while a new machine waits for a row, however
/// many rows it has taken before, the machine answers `Abort` with the
/// backend's message, and whatever it hears afterwards the table shows what
/// it showed before the batch and has no transaction open.
pub proof fn failed_insert_stores_nothing(
    machine: IngestView,
    before: Seq<RowView>,
    heard: Seq<(IngestEvent, Seq<char>)>,
    message: String,
    fresh: Seq<char>,
    later: Seq<(IngestEvent, Seq<char>)>,
)
    requires
        machine.fresh(),
        run(machine, Table { committed: before, pending: None }, heard).0.phase
            == IngestPhase::Inserting,
    ensures
        ({
            let start = Table { committed: before, pending: None };
            let waiting = run(machine, start, heard).0;
            let failure = seq![(IngestEvent::BackendFailed(message), fresh)];
            let (end, table) = run(machine, start, heard + failure + later);
            &&& waiting.next(IngestEvent::BackendFailed(message), fresh).1 == ActionView::Abort(
                StoreErrorView::BackendFailure(message@),
            )
            &&& end.phase == IngestPhase::Failed
            &&& table.committed == before
            &&& table.pending is None
        }),
{
    let start = Table { committed: before, pending: None };
    let (waiting, table) = run(machine, start, heard);
    let event = IngestEvent::BackendFailed(message);
    let failure = seq![(event, fresh)];
    lemma_run_agrees(machine, start, before, heard);
    lemma_run_splits(machine, start, heard, failure + later);
    assert(heard + (failure + later) =~= heard + failure + later);
    let rest = failure + later;
    assert(rest[0] == (event, fresh));
    assert(rest.drop_first() =~= later);
    lemma_step_agrees(waiting, table, before, event, fresh);
    lemma_run_agrees(waiting.next(event, fresh).0, table.after(waiting, event), before, later);
}

/// The identities come back in the order of the documents.
///
/// Once a new machine is `Done` it has given out one identity for each
/// document, and the row that carries the identity of place `i` carries
/// the text and the metadata of document `i` and the embedding of place
/// `i`.
pub proof fn identities_follow_documents(
    machine: IngestView,
    before: Seq<RowView>,
    heard: Seq<(IngestEvent, Seq<char>)>,
    i: int,
)
    requires
        machine.fresh(),
        run(machine, Table { committed: before, pending: None }, heard).0.phase
            == IngestPhase::Done,
        0 <= i < machine.docs.len(),
    ensures
        ({
            let (end, table) = run(machine, Table { committed: before, pending: None }, heard);
            let row = table.committed[before.len() + i];
            &&& end.ids.len() == machine.docs.len()
            &&& table.committed.len() == before.len() + machine.docs.len()
            &&& row.id == end.ids[i]
            &&& row.document_text == machine.docs[i].page_content@
            &&& row.metadata == machine.docs[i].metadata@
            &&& row.embedding == end.vectors[i]@
            &&& row.collection_id == machine.collection_id
            &&& row.namespace == machine.namespace
        }),
{
    lemma_run_agrees(machine, Table { committed: before, pending: None }, before, heard);
}

/// A wrong number of vectors stores nothing.
///
/// Where a new machine hears of another number of vectors than it has
/// documents, it answers `Abort` with `EmbeddingCountMismatch`, and
/// whatever it hears afterwards the table shows what it showed before.
pub proof fn count_mismatch_stores_nothing(
    machine: IngestView,
    before: Seq<RowView>,
    vectors: Vec<Vec<Double>>,
    fresh: Seq<char>,
    heard: Seq<(IngestEvent, Seq<char>)>,
)
    requires
        machine.fresh(),
        vectors@.len() != machine.docs.len(),
    ensures
        machine.next(IngestEvent::Embedded(vectors), fresh).1 == ActionView::Abort(
            StoreErrorView::EmbeddingCountMismatch,
        ),
        ({
            let first = seq![(IngestEvent::Embedded(vectors), fresh)];
            let (end, table) = run(
                machine,
                Table { committed: before, pending: None },
                first + heard,
            );
            &&& end.phase == IngestPhase::Failed
            &&& table.committed == before
            &&& table.pending is None
        }),
{
    let start = Table { committed: before, pending: None };
    let first = seq![(IngestEvent::Embedded(vectors), fresh)];
    let all = first + heard;
    assert(all[0] == (IngestEvent::Embedded(vectors), fresh));
    assert(all.drop_first() =~= heard);
    let failed = machine.next(IngestEvent::Embedded(vectors), fresh).0;
    lemma_step_agrees(machine, start, before, IngestEvent::Embedded(vectors), fresh);
    lemma_run_agrees(failed, start.after(machine, IngestEvent::Embedded(vectors)), before, heard);
}

} // verus!
