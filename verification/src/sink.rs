//! The persistence sink: an embedded relational store held in a `Store`
//! handle together with a ghost model of everything this handle has issued —
//! the schema statements run, the rows made durable by committed
//! transactions, and the rows pending inside the open transaction. Each
//! trusted wrapper makes exactly one call into the store's crate and states
//! over that model what the call did; the exact SQL text each wrapper may
//! run is pinned by its `requires`. What the model deliberately leaves out:
//! the store's state on disk before this run — so the cause of a failure
//! (for instance a key conflict with a pre-existing row) is not modeled —
//! and any other writer on the same destination; of those the wrappers
//! promise nothing. A failed statement inside a transaction may leave the
//! transaction open or, on a few severe errors the store documents (I/O,
//! disk-full, busy, interrupt), the store itself discards it: the insert
//! wrappers state that disjunction.

use vstd::prelude::*;
use crate::model::{same_key, Row};

verus! {

#[verifier::external_type_specification]
#[verifier::external_body]
pub struct ExConnection(rusqlite::Connection);

#[verifier::external_type_specification]
#[verifier::external_body]
pub struct ExSqliteError(rusqlite::Error);

/// Error of this library: a store operation failed. The pipeline treats
/// every such failure as fatal; the underlying store error is carried along.
#[derive(Debug)]
pub struct StoreError {
    pub source: rusqlite::Error,
}

/// The schema statement creating the commit_details table.
pub open spec fn commit_table_sql() -> Seq<char> {
    "CREATE TABLE commit_details (id TEXT PRIMARY KEY, author TEXT NOT NULL, date INTEGER NOT NULL, message TEXT NOT NULL)"@
}

/// The schema statement creating the commit_relation table.
pub open spec fn relation_table_sql() -> Seq<char> {
    "CREATE TABLE commit_relation (parent TEXT NOT NULL, child TEXT NOT NULL, PRIMARY KEY (parent, child))"@
}

/// The schema statement creating the ref_details table.
pub open spec fn ref_table_sql() -> Seq<char> {
    "CREATE TABLE ref_details (name TEXT NOT NULL, id TEXT NOT NULL, kind TEXT NOT NULL, PRIMARY KEY (name, id))"@
}

/// Whether `sql` is one of the three schema statements.
pub open spec fn is_schema_sql(sql: Seq<char>) -> bool {
    sql == commit_table_sql() || sql == relation_table_sql() || sql == ref_table_sql()
}

/// The three schema statements, in the order the bootstrap runs them.
pub open spec fn schema_sql_seq() -> Seq<Seq<char>> {
    seq![commit_table_sql(), relation_table_sql(), ref_table_sql()]
}

/// The statement opening a transaction, as rusqlite's own Transaction issues it.
pub open spec fn begin_sql() -> Seq<char> {
    "BEGIN DEFERRED"@
}

/// The statement committing the open transaction.
pub open spec fn commit_sql() -> Seq<char> {
    "COMMIT"@
}

/// The statement abandoning the open transaction.
pub open spec fn rollback_sql() -> Seq<char> {
    "ROLLBACK"@
}

/// The parameterized insert into commit_details.
pub open spec fn commit_insert_sql() -> Seq<char> {
    "INSERT INTO commit_details (id, author, date, message) VALUES (?1, ?2, ?3, ?4)"@
}

/// The parameterized insert into commit_relation.
pub open spec fn relation_insert_sql() -> Seq<char> {
    "INSERT INTO commit_relation (parent, child) VALUES (?1, ?2)"@
}

/// The parameterized insert into ref_details.
pub open spec fn ref_insert_sql() -> Seq<char> {
    "INSERT INTO ref_details (id, name, kind) VALUES (?1, ?2, ?3)"@
}

/// One destination store, exclusively owned by one pipeline run. `committed`
/// holds the rows this handle has durably applied, in issue order; `pending`
/// holds the open transaction's rows, `None` when no transaction is open;
/// `ddl` holds the schema statements this handle has successfully run.
pub struct Store {
    pub conn: rusqlite::Connection,
    pub committed: Ghost<Seq<Row>>,
    pub pending: Ghost<Option<Seq<Row>>>,
    pub ddl: Ghost<Seq<Seq<char>>>,
}

impl Store {
    /// Takes ownership of an open connection; nothing has been issued
    /// through the new handle yet.
    pub fn new(conn: rusqlite::Connection) -> (s: Store)
        ensures
            s.committed@ == Seq::<Row>::empty(),
            s.pending@ is None,
            s.ddl@ == Seq::<Seq<char>>::empty(),
    {
        Store {
            conn,
            committed: Ghost(Seq::empty()),
            pending: Ghost(None),
            ddl: Ghost(Seq::empty()),
        }
    }

    /// The underlying connection, for reading outside the verified pipeline.
    pub fn connection(&self) -> &rusqlite::Connection {
        &self.conn
    }

    /// Relies on rusqlite::Connection::execute: runs one of the three schema
    /// statements outside any transaction. CREATE TABLE touches no row; on
    /// success the statement is recorded, on failure nothing was created.
    #[verifier::external_body]
    pub(crate) fn execute_ddl(&mut self, sql: &str) -> (r: Result<usize, rusqlite::Error>)
        requires
            old(self).pending@ is None,
            is_schema_sql(sql@),
        ensures
            final(self).committed@ == old(self).committed@,
            final(self).pending@ is None,
            r is Ok ==> final(self).ddl@ == old(self).ddl@.push(sql@),
            r is Err ==> final(self).ddl@ == old(self).ddl@,
    {
        self.conn.execute(sql, ())
    }

    /// Relies on rusqlite::Connection::execute_batch with the BEGIN
    /// statement, exactly as rusqlite::Transaction::new issues it: on
    /// success a transaction is open with nothing pending; no row and no
    /// schema statement is touched either way.
    #[verifier::external_body]
    pub(crate) fn begin_tx(&mut self, sql: &str) -> (r: Result<(), rusqlite::Error>)
        requires
            old(self).pending@ is None,
            sql@ == begin_sql(),
        ensures
            final(self).committed@ == old(self).committed@,
            final(self).ddl@ == old(self).ddl@,
            r is Ok ==> final(self).pending@ == Some(Seq::<Row>::empty()),
            r is Err ==> final(self).pending@ is None,
    {
        self.conn.execute_batch(sql)
    }

    /// Relies on rusqlite::Connection::execute_batch with the COMMIT
    /// statement, as rusqlite::Transaction::commit issues it: on success the
    /// pending rows become durable, in order, after everything committed
    /// before; on failure nothing pending becomes durable.
    #[verifier::external_body]
    pub(crate) fn commit_tx(&mut self, sql: &str) -> (r: Result<(), rusqlite::Error>)
        requires
            old(self).pending@ is Some,
            sql@ == commit_sql(),
        ensures
            final(self).ddl@ == old(self).ddl@,
            r is Ok ==> final(self).committed@ == old(self).committed@ + old(self).pending@->0
                && final(self).pending@ is None,
            r is Err ==> final(self).committed@ == old(self).committed@,
    {
        self.conn.execute_batch(sql)
    }

    /// Relies on rusqlite::Connection::execute_batch with the ROLLBACK
    /// statement, as rusqlite::Transaction's drop path issues it: an open
    /// transaction's rows are discarded; nothing committed changes. It may
    /// be issued when the store has already discarded the transaction after
    /// a failed statement — the ROLLBACK then fails harmlessly, exactly as
    /// rusqlite's own drop path ignores that error.
    #[verifier::external_body]
    pub(crate) fn rollback_tx(&mut self, sql: &str) -> (r: Result<(), rusqlite::Error>)
        requires
            sql@ == rollback_sql(),
        ensures
            final(self).committed@ == old(self).committed@,
            final(self).ddl@ == old(self).ddl@,
            r is Ok ==> final(self).pending@ is None,
    {
        self.conn.execute_batch(sql)
    }

    /// Relies on rusqlite::Connection::execute with the commit_details
    /// insert: inside the open transaction, on success exactly this row is
    /// appended to the pending rows, and — by the table's PRIMARY KEY — no
    /// row with the same key existed, in particular none among this handle's
    /// own committed or pending rows. On failure the transaction stays as it
    /// was, or the store has discarded it (it does so on a few severe
    /// errors: I/O, disk-full, busy, interrupt).
    #[verifier::external_body]
    pub(crate) fn insert_commit_row(
        &mut self,
        sql: &str,
        id: &String,
        author: &String,
        date: i64,
        message: &String,
    ) -> (r: Result<usize, rusqlite::Error>)
        requires
            old(self).pending@ is Some,
            sql@ == commit_insert_sql(),
        ensures
            final(self).committed@ == old(self).committed@,
            final(self).ddl@ == old(self).ddl@,
            r is Ok ==> final(self).pending@ == Some(
                old(self).pending@->0.push(
                    Row::CommitRow { id: id@, author: author@, date: date, message: message@ },
                ),
            ),
            r is Ok ==> forall|k: int|
                0 <= k < old(self).committed@.len() ==> !same_key(
                    #[trigger] old(self).committed@[k],
                    Row::CommitRow { id: id@, author: author@, date: date, message: message@ },
                ),
            r is Ok ==> forall|k: int|
                0 <= k < old(self).pending@->0.len() ==> !same_key(
                    #[trigger] old(self).pending@->0[k],
                    Row::CommitRow { id: id@, author: author@, date: date, message: message@ },
                ),
            r is Err ==> final(self).pending@ == old(self).pending@ || final(self).pending@ is None,
    {
        let params: [&dyn rusqlite::types::ToSql; 4] = [id, author, &date, message];
        self.conn.execute(sql, params.as_slice())
    }

    /// Relies on rusqlite::Connection::execute with the commit_relation
    /// insert, under the same transaction and PRIMARY KEY rules as the
    /// commit row insert.
    #[verifier::external_body]
    pub(crate) fn insert_relation_row(
        &mut self,
        sql: &str,
        parent: &String,
        child: &String,
    ) -> (r: Result<usize, rusqlite::Error>)
        requires
            old(self).pending@ is Some,
            sql@ == relation_insert_sql(),
        ensures
            final(self).committed@ == old(self).committed@,
            final(self).ddl@ == old(self).ddl@,
            r is Ok ==> final(self).pending@ == Some(
                old(self).pending@->0.push(Row::RelationRow { parent: parent@, child: child@ }),
            ),
            r is Ok ==> forall|k: int|
                0 <= k < old(self).committed@.len() ==> !same_key(
                    #[trigger] old(self).committed@[k],
                    Row::RelationRow { parent: parent@, child: child@ },
                ),
            r is Ok ==> forall|k: int|
                0 <= k < old(self).pending@->0.len() ==> !same_key(
                    #[trigger] old(self).pending@->0[k],
                    Row::RelationRow { parent: parent@, child: child@ },
                ),
            r is Err ==> final(self).pending@ == old(self).pending@ || final(self).pending@ is None,
    {
        let params: [&dyn rusqlite::types::ToSql; 2] = [parent, child];
        self.conn.execute(sql, params.as_slice())
    }

    /// Relies on rusqlite::Connection::execute with the ref_details insert,
    /// under the same transaction and PRIMARY KEY rules as the commit row
    /// insert.
    #[verifier::external_body]
    pub(crate) fn insert_ref_row(
        &mut self,
        sql: &str,
        id: &String,
        name: &String,
        kind: &String,
    ) -> (r: Result<usize, rusqlite::Error>)
        requires
            old(self).pending@ is Some,
            sql@ == ref_insert_sql(),
        ensures
            final(self).committed@ == old(self).committed@,
            final(self).ddl@ == old(self).ddl@,
            r is Ok ==> final(self).pending@ == Some(
                old(self).pending@->0.push(Row::RefRow { name: name@, id: id@, kind: kind@ }),
            ),
            r is Ok ==> forall|k: int|
                0 <= k < old(self).committed@.len() ==> !same_key(
                    #[trigger] old(self).committed@[k],
                    Row::RefRow { name: name@, id: id@, kind: kind@ },
                ),
            r is Ok ==> forall|k: int|
                0 <= k < old(self).pending@->0.len() ==> !same_key(
                    #[trigger] old(self).pending@->0[k],
                    Row::RefRow { name: name@, id: id@, kind: kind@ },
                ),
            r is Err ==> final(self).pending@ == old(self).pending@ || final(self).pending@ is None,
    {
        let params: [&dyn rusqlite::types::ToSql; 3] = [id, name, kind];
        self.conn.execute(sql, params.as_slice())
    }
}

} // verus!
