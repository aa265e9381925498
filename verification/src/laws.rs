//! Laws of the store-row model that the pipeline's contracts promise: the
//! rows a successful run appends (`rows_of_raw_commits` in the drivers'
//! `ensures`) hold one commit row per raw commit and one relation row per
//! listed parent — none for a root commit — every relation row carrying its
//! commit's own identifier as the child; and every parent edge of every
//! commit appears among the appended rows, wherever in the traversal order
//! the commit stands.

use vstd::prelude::*;
use crate::model::{commit_row_of_raw, relation_rows_of_raw, rows_of_raw_commit,
    rows_of_raw_commits, same_key, unique_keys, Row};
use crate::records::RawCommit;

verus! {

/// No silent duplicates: appending a row whose key repeats one already in the
/// store breaks key-uniqueness. Together with a driver's contract — on `Ok`
/// the store holds exactly the old rows plus the run's rows, and
/// key-uniqueness is preserved — a run whose inputs repeat a key this handle
/// has already stored cannot return `Ok`: it fails rather than duplicating or
/// updating the row.
pub proof fn lemma_duplicate_breaks_uniqueness(base: Seq<Row>, rows: Seq<Row>, i: int, j: int)
    requires
        0 <= i < base.len(),
        0 <= j < rows.len(),
        same_key(base[i], rows[j]),
    ensures
        !unique_keys(base + rows),
{
    assert((base + rows)[i] == base[i]);
    assert((base + rows)[base.len() + j] == rows[j]);
}

/// The number of commit_relation rows in a row sequence.
pub open spec fn relation_row_count(rows: Seq<Row>) -> int
    decreases rows.len(),
{
    if rows.len() == 0 {
        0
    } else {
        (if rows.first() is RelationRow {
            1int
        } else {
            0int
        }) + relation_row_count(rows.drop_first())
    }
}

/// The number of commit_details rows in a row sequence.
pub open spec fn commit_row_count(rows: Seq<Row>) -> int
    decreases rows.len(),
{
    if rows.len() == 0 {
        0
    } else {
        (if rows.first() is CommitRow {
            1int
        } else {
            0int
        }) + commit_row_count(rows.drop_first())
    }
}

/// The sum of parent counts over a run's raw commits.
pub open spec fn parent_count_sum(raws: Seq<RawCommit>) -> int
    decreases raws.len(),
{
    if raws.len() == 0 {
        0
    } else {
        raws.first().parents@.len() + parent_count_sum(raws.drop_first())
    }
}

/// Both row counts split over a concatenation.
proof fn lemma_row_counts_concat(a: Seq<Row>, b: Seq<Row>)
    ensures
        relation_row_count(a + b) == relation_row_count(a) + relation_row_count(b),
        commit_row_count(a + b) == commit_row_count(a) + commit_row_count(b),
    decreases a.len(),
{
    if a.len() == 0 {
        assert(a + b =~= b);
    } else {
        assert((a + b).drop_first() =~= a.drop_first() + b);
        assert((a + b).first() == a.first());
        lemma_row_counts_concat(a.drop_first(), b);
    }
}

/// In a sequence of relation rows alone, the counts are its length and zero.
proof fn lemma_row_counts_all_relation(rows: Seq<Row>)
    requires
        forall|i: int| 0 <= i < rows.len() ==> rows[i] is RelationRow,
    ensures
        relation_row_count(rows) == rows.len(),
        commit_row_count(rows) == 0,
    decreases rows.len(),
{
    if rows.len() > 0 {
        lemma_row_counts_all_relation(rows.drop_first());
    }
}

/// One raw commit's contribution to the store: its commit row first, then
/// exactly one relation row per parent — zero for a root commit — each
/// carrying the commit's own identifier as the child.
pub proof fn lemma_rows_of_raw_commit(raw: RawCommit)
    ensures
        rows_of_raw_commit(raw).len() == 1 + raw.parents@.len(),
        rows_of_raw_commit(raw)[0] == commit_row_of_raw(raw),
        forall|j: int|
            0 <= j < raw.parents@.len() ==> rows_of_raw_commit(raw)[1 + j] == (Row::RelationRow {
                parent: raw.parents@[j]@,
                child: raw.id@,
            }),
        relation_row_count(rows_of_raw_commit(raw)) == raw.parents@.len(),
        commit_row_count(rows_of_raw_commit(raw)) == 1,
{
    let head = seq![commit_row_of_raw(raw)];
    let rel = relation_rows_of_raw(raw);
    lemma_row_counts_concat(head, rel);
    assert(head.drop_first() =~= Seq::<Row>::empty());
    assert(relation_row_count(Seq::<Row>::empty()) == 0);
    assert(commit_row_count(Seq::<Row>::empty()) == 0);
    assert(relation_row_count(head) == 0);
    assert(commit_row_count(head) == 1);
    lemma_row_counts_all_relation(rel);
}

/// Completeness and edge count over a whole run: the appended rows hold
/// exactly one commit row per raw commit, and exactly as many relation rows
/// as the sum of parent counts.
pub proof fn lemma_store_row_counts(raws: Seq<RawCommit>)
    ensures
        commit_row_count(rows_of_raw_commits(raws)) == raws.len(),
        relation_row_count(rows_of_raw_commits(raws)) == parent_count_sum(raws),
    decreases raws.len(),
{
    let m = raws.map_values(|r: RawCommit| rows_of_raw_commit(r));
    if raws.len() == 0 {
        assert(m =~= Seq::<Seq<Row>>::empty());
        assert(m.flatten() =~= Seq::<Row>::empty());
    } else {
        assert(m.drop_first() =~= raws.drop_first().map_values(
            |r: RawCommit| rows_of_raw_commit(r),
        ));
        assert(m.flatten() == m.first() + m.drop_first().flatten());
        lemma_row_counts_concat(m.first(), m.drop_first().flatten());
        lemma_rows_of_raw_commit(raws.first());
        lemma_store_row_counts(raws.drop_first());
    }
}

/// Ordering: whichever position a commit holds in the traversal, each of its
/// parent edges appears among the rows a successful run appends.
pub proof fn lemma_relation_present(raws: Seq<RawCommit>, i: int, j: int)
    requires
        0 <= i < raws.len(),
        0 <= j < raws[i].parents@.len(),
    ensures
        rows_of_raw_commits(raws).contains(
            Row::RelationRow { parent: raws[i].parents@[j]@, child: raws[i].id@ },
        ),
    decreases i,
{
    let m = raws.map_values(|r: RawCommit| rows_of_raw_commit(r));
    let head = m.first();
    let tail = m.drop_first().flatten();
    let row = Row::RelationRow { parent: raws[i].parents@[j]@, child: raws[i].id@ };
    assert(m.flatten() == head + tail);
    if i == 0 {
        lemma_rows_of_raw_commit(raws[0]);
        assert(head[1 + j] == row);
        assert((head + tail)[1 + j] == row);
    } else {
        assert(m.drop_first() =~= raws.drop_first().map_values(
            |r: RawCommit| rows_of_raw_commit(r),
        ));
        assert(raws.drop_first()[i - 1] == raws[i]);
        lemma_relation_present(raws.drop_first(), i - 1, j);
        let k = choose|k: int| 0 <= k < tail.len() && tail[k] == row;
        assert((head + tail)[head.len() + k] == row);
    }
}

} // verus!
