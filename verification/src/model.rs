//! The mathematical model of the destination store's contents: a row is a
//! value of one of the three tables, and a run's expected contribution is a
//! sequence of rows, derived either from the flat records the pipeline built
//! or straight from the raw inputs. The drivers' contracts in the pipeline
//! promise the store exactly these rows.

use vstd::prelude::*;
use crate::records::{commit_normalized_from, kind_label, normalized_author, normalized_message,
    normalized_ref_name, normalized_ref_target, ref_normalized_from, CommitDetails, RawCommit,
    RawRef, RefDetails};

verus! {

/// One row of the destination store, in one of its three tables.
pub enum Row {
    CommitRow { id: Seq<char>, author: Seq<char>, date: i64, message: Seq<char> },
    RelationRow { parent: Seq<char>, child: Seq<char> },
    RefRow { name: Seq<char>, id: Seq<char>, kind: Seq<char> },
}

/// Whether two rows collide on a primary key: same table and same key
/// columns — the id for commit rows, (parent, child) for relation rows,
/// (name, id) for reference rows. Rows of different tables never collide.
pub open spec fn same_key(a: Row, b: Row) -> bool {
    match (a, b) {
        (Row::CommitRow { id: ia, .. }, Row::CommitRow { id: ib, .. }) => ia == ib,
        (
            Row::RelationRow { parent: pa, child: ca },
            Row::RelationRow { parent: pb, child: cb },
        ) => pa == pb && ca == cb,
        (Row::RefRow { name: na, id: ia, .. }, Row::RefRow { name: nb, id: ib, .. }) => na == nb
            && ia == ib,
        _ => false,
    }
}

/// No two rows of the sequence collide on a primary key.
pub open spec fn unique_keys(rows: Seq<Row>) -> bool {
    forall|a: int, b: int|
        0 <= a < b < rows.len() ==> !same_key(#[trigger] rows[a], #[trigger] rows[b])
}

/// Every row from position `n` on is key-fresh against everything before it.
pub open spec fn keys_fresh_beyond(rows: Seq<Row>, n: int) -> bool {
    forall|a: int, b: int|
        n <= a < rows.len() && 0 <= b < a ==> !same_key(#[trigger] rows[a], #[trigger] rows[b])
}

/// Key collision is symmetric.
pub proof fn lemma_same_key_symmetric(a: Row, b: Row)
    ensures
        same_key(a, b) == same_key(b, a),
{
}

/// Appending a row that is key-fresh against the whole base and against the
/// rows appended so far keeps the appended part key-fresh.
pub proof fn lemma_keys_fresh_push(base: Seq<Row>, pend: Seq<Row>, r: Row)
    requires
        keys_fresh_beyond(base + pend, base.len() as int),
        forall|k: int| 0 <= k < base.len() ==> !same_key(#[trigger] base[k], r),
        forall|k: int| 0 <= k < pend.len() ==> !same_key(#[trigger] pend[k], r),
    ensures
        keys_fresh_beyond(base + pend.push(r), base.len() as int),
{
    let s = (base + pend).push(r);
    assert(base + pend.push(r) =~= s);
    assert forall|a: int, b: int|
        base.len() <= a < s.len() && 0 <= b < a implies !same_key(s[a], s[b]) by {
        if a < s.len() - 1 {
            assert(s[a] == (base + pend)[a]);
            assert(s[b] == (base + pend)[b]);
        } else {
            assert(s[a] == r);
            if b < base.len() {
                assert(s[b] == base[b]);
                lemma_same_key_symmetric(r, base[b]);
            } else {
                assert(s[b] == pend[b - base.len()]);
                lemma_same_key_symmetric(r, pend[b - base.len()]);
            }
        }
    }
}

/// A key-unique base extended by a key-fresh block is key-unique as a whole.
pub proof fn lemma_unique_keys_extend(base: Seq<Row>, pend: Seq<Row>)
    requires
        unique_keys(base),
        keys_fresh_beyond(base + pend, base.len() as int),
    ensures
        unique_keys(base + pend),
{
    let s = base + pend;
    assert forall|a: int, b: int| 0 <= a < b < s.len() implies !same_key(s[a], s[b]) by {
        if b < base.len() {
            assert(s[a] == base[a]);
            assert(s[b] == base[b]);
        } else {
            assert(!same_key(s[b], s[a]));
            lemma_same_key_symmetric(s[b], s[a]);
        }
    }
}

/// The commit_details row of one flat commit record.
pub open spec fn commit_row_of(c: CommitDetails) -> Row {
    Row::CommitRow { id: c.id@, author: c.author@, date: c.date, message: c.message@ }
}

/// The commit_relation rows of one flat commit record: one per parent, in
/// parent-list order, each with the commit itself as the child.
pub open spec fn relation_rows_of(c: CommitDetails) -> Seq<Row> {
    Seq::new(c.parents@.len(), |i: int| Row::RelationRow { parent: c.parents@[i]@, child: c.id@ })
}

/// All rows one flat commit record hands the store: its commit_details row
/// followed immediately by its commit_relation rows.
pub open spec fn rows_of_commit(c: CommitDetails) -> Seq<Row> {
    seq![commit_row_of(c)] + relation_rows_of(c)
}

/// All rows a sequence of flat commit records hands the store, in order.
pub open spec fn rows_of_commits(cs: Seq<CommitDetails>) -> Seq<Row> {
    cs.map_values(|c: CommitDetails| rows_of_commit(c)).flatten()
}

/// The ref_details row of one flat reference record.
pub open spec fn ref_row_of(d: RefDetails) -> Row {
    Row::RefRow { name: d.name@, id: d.id@, kind: d.kind@ }
}

/// All rows a sequence of flat reference records hands the store, in order.
pub open spec fn rows_of_refs(ds: Seq<RefDetails>) -> Seq<Row> {
    ds.map_values(|d: RefDetails| ref_row_of(d))
}

/// The commit_details row owed to one raw commit, fallbacks applied.
pub open spec fn commit_row_of_raw(raw: RawCommit) -> Row {
    Row::CommitRow {
        id: raw.id@,
        author: normalized_author(raw.author),
        date: raw.date,
        message: normalized_message(raw.message),
    }
}

/// The commit_relation rows owed to one raw commit: one per parent.
pub open spec fn relation_rows_of_raw(raw: RawCommit) -> Seq<Row> {
    Seq::new(raw.parents@.len(), |i: int| Row::RelationRow { parent: raw.parents@[i]@, child: raw.id@ })
}

/// All rows owed to one raw commit.
pub open spec fn rows_of_raw_commit(raw: RawCommit) -> Seq<Row> {
    seq![commit_row_of_raw(raw)] + relation_rows_of_raw(raw)
}

/// All rows owed to a run's raw commits, in traversal order.
pub open spec fn rows_of_raw_commits(raws: Seq<RawCommit>) -> Seq<Row> {
    raws.map_values(|r: RawCommit| rows_of_raw_commit(r)).flatten()
}

/// The ref_details row owed to one raw reference, fallbacks applied.
pub open spec fn ref_row_of_raw(raw: RawRef) -> Row {
    Row::RefRow {
        name: normalized_ref_name(raw.name),
        id: normalized_ref_target(raw.target),
        kind: kind_label(raw.kind),
    }
}

/// All rows owed to a run's raw references, in order.
pub open spec fn rows_of_raw_refs(raws: Seq<RawRef>) -> Seq<Row> {
    raws.map_values(|r: RawRef| ref_row_of_raw(r))
}

/// A normalized record hands the store exactly the rows owed to its raw
/// commit: normalization changes no identifier, parent or field beyond the
/// fixed fallbacks.
pub proof fn lemma_rows_of_commit_normalized(c: CommitDetails, raw: RawCommit)
    requires
        commit_normalized_from(c, raw),
    ensures
        rows_of_commit(c) == rows_of_raw_commit(raw),
{
    assert(relation_rows_of(c) =~= relation_rows_of_raw(raw));
    assert(rows_of_commit(c) =~= rows_of_raw_commit(raw));
}

/// Pointwise-normalized records hand the store exactly the rows owed to
/// their raw commits.
pub proof fn lemma_rows_of_commits_normalized(cs: Seq<CommitDetails>, raws: Seq<RawCommit>)
    requires
        cs.len() == raws.len(),
        forall|i: int| 0 <= i < cs.len() ==> commit_normalized_from(#[trigger] cs[i], raws[i]),
    ensures
        rows_of_commits(cs) == rows_of_raw_commits(raws),
{
    let a = cs.map_values(|c: CommitDetails| rows_of_commit(c));
    let b = raws.map_values(|r: RawCommit| rows_of_raw_commit(r));
    assert forall|i: int| 0 <= i < cs.len() implies a[i] == b[i] by {
        lemma_rows_of_commit_normalized(cs[i], raws[i]);
    }
    assert(a =~= b);
}

/// A normalized reference record hands the store exactly the row owed to its
/// raw reference.
pub proof fn lemma_rows_of_refs_normalized(ds: Seq<RefDetails>, raws: Seq<RawRef>)
    requires
        ds.len() == raws.len(),
        forall|i: int| 0 <= i < ds.len() ==> ref_normalized_from(#[trigger] ds[i], raws[i]),
    ensures
        rows_of_refs(ds) == rows_of_raw_refs(raws),
{
    assert(rows_of_refs(ds) =~= rows_of_raw_refs(raws));
}

/// Splitting a record sequence splits its rows: the rows of a concatenation
/// are the concatenation of the rows.
pub proof fn lemma_rows_of_commits_concat(a: Seq<CommitDetails>, b: Seq<CommitDetails>)
    ensures
        rows_of_commits(a + b) == rows_of_commits(a) + rows_of_commits(b),
{
    let f = |c: CommitDetails| rows_of_commit(c);
    assert((a + b).map_values(f) =~= a.map_values(f) + b.map_values(f));
    vstd::seq_lib::lemma_flatten_concat(a.map_values(f), b.map_values(f));
}

/// The same for reference records.
pub proof fn lemma_rows_of_refs_concat(a: Seq<RefDetails>, b: Seq<RefDetails>)
    ensures
        rows_of_refs(a + b) == rows_of_refs(a) + rows_of_refs(b),
{
    assert(rows_of_refs(a + b) =~= rows_of_refs(a) + rows_of_refs(b));
}

} // verus!
