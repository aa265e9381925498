//! The pipeline driver: normalizes every raw commit and reference, batches
//! the records into fixed-size chunks, and persists each chunk inside one
//! store transaction, strictly sequentially. Commits are fully persisted
//! before references begin. Any store failure is fatal: it is returned at
//! once, chunks already committed stay, later chunks are never attempted.
//! Every driver states over the store model exactly which rows it made
//! durable: on success the rows owed to all its inputs, in order; on failure
//! the rows owed to a prefix of whole chunks, with everything committed
//! before the call untouched.

use vstd::prelude::*;
use crate::batch::{chunk_records, lemma_flatten_take_full_len, lemma_flatten_take_len,
    lemma_flatten_take_prefix, lemma_flatten_take_succ, views_of_chunks, CHUNK_SIZE};
use crate::model::{commit_row_of, keys_fresh_beyond, lemma_keys_fresh_push,
    lemma_rows_of_commits_normalized, lemma_rows_of_commits_concat, lemma_rows_of_refs_concat,
    lemma_rows_of_refs_normalized, lemma_unique_keys_extend, ref_row_of, relation_rows_of,
    rows_of_commits, rows_of_raw_commits, rows_of_raw_refs, rows_of_refs, unique_keys, Row};
use crate::records::{commit_normalized_from, extract_commit_details, extract_ref_details,
    ref_normalized_from, CommitDetails, RawCommit, RawRef, RefDetails};
use crate::sink::{schema_sql_seq, Store, StoreError};

verus! {

/// Creates the destination schema: the three tables for commit rows,
/// relation edges, and reference rows, in that order. One-time bootstrap;
/// the caller invokes it only when the destination did not exist before the
/// run. On success exactly the three schema statements were run; on failure
/// a strict prefix of them. No row is touched either way.
pub fn create_database(store: &mut Store) -> (r: Result<(), StoreError>)
    requires
        old(store).pending@ is None,
    ensures
        final(store).committed@ == old(store).committed@,
        final(store).pending@ is None,
        r is Ok ==> final(store).ddl@ == old(store).ddl@ + schema_sql_seq(),
        r is Err ==> exists|k: int|
            0 <= k < 3 && final(store).ddl@ == old(store).ddl@ + schema_sql_seq().take(k),
{
    let ghost dbase = store.ddl@;
    match store.execute_ddl(
        "CREATE TABLE commit_details (id TEXT PRIMARY KEY, author TEXT NOT NULL, date INTEGER NOT NULL, message TEXT NOT NULL)",
    ) {
        Ok(_) => {},
        Err(e) => {
            proof {
                assert(dbase + schema_sql_seq().take(0) =~= dbase);
            }
            return Err(StoreError { source: e });
        },
    }
    match store.execute_ddl(
        "CREATE TABLE commit_relation (parent TEXT NOT NULL, child TEXT NOT NULL, PRIMARY KEY (parent, child))",
    ) {
        Ok(_) => {},
        Err(e) => {
            proof {
                assert(store.ddl@ =~= dbase + schema_sql_seq().take(1));
            }
            return Err(StoreError { source: e });
        },
    }
    match store.execute_ddl(
        "CREATE TABLE ref_details (name TEXT NOT NULL, id TEXT NOT NULL, kind TEXT NOT NULL, PRIMARY KEY (name, id))",
    ) {
        Ok(_) => {},
        Err(e) => {
            proof {
                assert(store.ddl@ =~= dbase + schema_sql_seq().take(2));
            }
            return Err(StoreError { source: e });
        },
    }
    proof {
        assert(store.ddl@ =~= dbase + schema_sql_seq());
    }
    Ok(())
}

/// Normalizes every raw commit, in order: one record per raw input, no
/// failure path.
pub fn normalize_commits(raws: Vec<RawCommit>) -> (records: Vec<CommitDetails>)
    ensures
        records@.len() == raws@.len(),
        forall|i: int|
            0 <= i < raws@.len() ==> commit_normalized_from(#[trigger] records@[i], raws@[i]),
{
    let ghost all = raws@;
    let mut rest = raws;
    let mut records: Vec<CommitDetails> = Vec::new();
    while rest.len() > 0
        invariant
            records@.len() + rest@.len() == all.len(),
            rest@ == all.skip(records@.len() as int),
            forall|i: int|
                0 <= i < records@.len() ==> commit_normalized_from(#[trigger] records@[i], all[i]),
        decreases rest@.len(),
    {
        let raw = rest.remove(0);
        let record = extract_commit_details(raw);
        records.push(record);
        proof {
            assert(rest@ =~= all.skip(records@.len() as int));
        }
    }
    records
}

/// Normalizes every raw reference, in order: one record per raw input, no
/// failure path.
pub fn normalize_refs(raws: Vec<RawRef>) -> (records: Vec<RefDetails>)
    ensures
        records@.len() == raws@.len(),
        forall|i: int|
            0 <= i < raws@.len() ==> ref_normalized_from(#[trigger] records@[i], raws@[i]),
{
    let ghost all = raws@;
    let mut rest = raws;
    let mut records: Vec<RefDetails> = Vec::new();
    while rest.len() > 0
        invariant
            records@.len() + rest@.len() == all.len(),
            rest@ == all.skip(records@.len() as int),
            forall|i: int|
                0 <= i < records@.len() ==> ref_normalized_from(#[trigger] records@[i], all[i]),
        decreases rest@.len(),
    {
        let raw = rest.remove(0);
        let record = extract_ref_details(raw);
        records.push(record);
        proof {
            assert(rest@ =~= all.skip(records@.len() as int));
        }
    }
    records
}

/// Persists one chunk of commit records: a single transaction inserts every
/// record's commit row, each followed immediately by all of that record's
/// relation rows (one per parent), then commits. On success exactly the
/// chunk's rows were made durable, in order, after everything committed
/// before; on any store error the transaction is abandoned and nothing of
/// the chunk is durable.
#[verifier::loop_isolation(false)]
pub fn batch_insert_commits(store: &mut Store, commits: &Vec<CommitDetails>) -> (r: Result<
    (),
    StoreError,
>)
    requires
        old(store).pending@ is None,
    ensures
        r is Ok ==> final(store).committed@ == old(store).committed@ + rows_of_commits(commits@)
            && final(store).pending@ is None,
        r is Ok && unique_keys(old(store).committed@) ==> unique_keys(final(store).committed@),
        r is Err ==> final(store).committed@ == old(store).committed@,
        final(store).ddl@ == old(store).ddl@,
{
    let ghost base = store.committed@;
    let ghost dbase = store.ddl@;
    let ghost m = commits@.map_values(|c: CommitDetails| crate::model::rows_of_commit(c));
    match store.begin_tx("BEGIN DEFERRED") {
        Ok(_) => {},
        Err(e) => {
            return Err(StoreError { source: e });
        },
    }
    let mut i: usize = 0;
    while i < commits.len()
        invariant
            i <= commits@.len(),
            m == commits@.map_values(|c: CommitDetails| crate::model::rows_of_commit(c)),
            store.committed@ == base,
            store.ddl@ == dbase,
            store.pending@ == Some(m.take(i as int).flatten()),
            keys_fresh_beyond(base + store.pending@->0, base.len() as int),
        decreases commits@.len() - i,
    {
        let ghost pend0 = store.pending@->0;
        match store.insert_commit_row(
            "INSERT INTO commit_details (id, author, date, message) VALUES (?1, ?2, ?3, ?4)",
            &commits[i].id,
            &commits[i].author,
            commits[i].date,
            &commits[i].message,
        ) {
            Ok(_) => {},
            Err(e) => {
                match store.rollback_tx("ROLLBACK") {
                    Ok(_) => {},
                    Err(_) => {},
                }
                return Err(StoreError { source: e });
            },
        }
        proof {
            lemma_keys_fresh_push(base, pend0, commit_row_of(commits@[i as int]));
            assert(relation_rows_of(commits@[i as int]).take(0) =~= Seq::<Row>::empty());
            assert(m.take(i as int).flatten().push(commit_row_of(commits@[i as int])) =~= m.take(
                i as int,
            ).flatten() + seq![commit_row_of(commits@[i as int])] + relation_rows_of(
                commits@[i as int],
            ).take(0));
        }
        let mut j: usize = 0;
        while j < commits[i].parents.len()
            invariant
                i < commits@.len(),
                j <= commits@[i as int].parents@.len(),
                m == commits@.map_values(|c: CommitDetails| crate::model::rows_of_commit(c)),
                store.committed@ == base,
                store.ddl@ == dbase,
                store.pending@ == Some(
                    m.take(i as int).flatten() + seq![commit_row_of(commits@[i as int])]
                        + relation_rows_of(commits@[i as int]).take(j as int),
                ),
                keys_fresh_beyond(base + store.pending@->0, base.len() as int),
            decreases commits@[i as int].parents@.len() - j,
        {
            let ghost rpend0 = store.pending@->0;
            match store.insert_relation_row(
                "INSERT INTO commit_relation (parent, child) VALUES (?1, ?2)",
                &commits[i].parents[j],
                &commits[i].id,
            ) {
                Ok(_) => {},
                Err(e) => {
                    match store.rollback_tx("ROLLBACK") {
                        Ok(_) => {},
                        Err(_) => {},
                    }
                    return Err(StoreError { source: e });
                },
            }
            proof {
                let c = commits@[i as int];
                lemma_keys_fresh_push(
                    base,
                    rpend0,
                    Row::RelationRow { parent: c.parents@[j as int]@, child: c.id@ },
                );
                assert(relation_rows_of(c).take(j as int).push(
                    Row::RelationRow { parent: c.parents@[j as int]@, child: c.id@ },
                ) =~= relation_rows_of(c).take(j as int + 1));
                assert((m.take(i as int).flatten() + seq![commit_row_of(c)] + relation_rows_of(
                    c,
                ).take(j as int)).push(
                    Row::RelationRow { parent: c.parents@[j as int]@, child: c.id@ },
                ) =~= m.take(i as int).flatten() + seq![commit_row_of(c)] + relation_rows_of(
                    c,
                ).take(j as int + 1));
            }
            j = j + 1;
        }
        proof {
            let c = commits@[i as int];
            assert(relation_rows_of(c).take(c.parents@.len() as int) =~= relation_rows_of(c));
            lemma_flatten_take_succ(m, i as int);
            assert(m.take(i as int).flatten() + seq![commit_row_of(c)] + relation_rows_of(c) =~= m.take(
                i as int + 1,
            ).flatten());
        }
        i = i + 1;
    }
    proof {
        assert(m.take(commits@.len() as int) =~= m);
    }
    let ghost pendall = store.pending@->0;
    match store.commit_tx("COMMIT") {
        Ok(_) => {
            proof {
                if unique_keys(base) {
                    lemma_unique_keys_extend(base, pendall);
                }
            }
            Ok(())
        },
        Err(e) => Err(StoreError { source: e }),
    }
}

/// Persists one chunk of reference records: a single transaction inserts
/// every reference row, then commits. On success exactly the chunk's rows
/// were made durable, in order; on any store error the transaction is
/// abandoned and nothing of the chunk is durable.
#[verifier::loop_isolation(false)]
pub fn batch_insert_refs(store: &mut Store, refs: &Vec<RefDetails>) -> (r: Result<(), StoreError>)
    requires
        old(store).pending@ is None,
    ensures
        r is Ok ==> final(store).committed@ == old(store).committed@ + rows_of_refs(refs@)
            && final(store).pending@ is None,
        r is Ok && unique_keys(old(store).committed@) ==> unique_keys(final(store).committed@),
        r is Err ==> final(store).committed@ == old(store).committed@,
        final(store).ddl@ == old(store).ddl@,
{
    let ghost base = store.committed@;
    let ghost dbase = store.ddl@;
    match store.begin_tx("BEGIN DEFERRED") {
        Ok(_) => {},
        Err(e) => {
            return Err(StoreError { source: e });
        },
    }
    proof {
        assert(rows_of_refs(refs@.take(0)) =~= Seq::<Row>::empty());
    }
    let mut i: usize = 0;
    while i < refs.len()
        invariant
            i <= refs@.len(),
            store.committed@ == base,
            store.ddl@ == dbase,
            store.pending@ == Some(rows_of_refs(refs@.take(i as int))),
            keys_fresh_beyond(base + store.pending@->0, base.len() as int),
        decreases refs@.len() - i,
    {
        let ghost pend0 = store.pending@->0;
        match store.insert_ref_row(
            "INSERT INTO ref_details (id, name, kind) VALUES (?1, ?2, ?3)",
            &refs[i].id,
            &refs[i].name,
            &refs[i].kind,
        ) {
            Ok(_) => {},
            Err(e) => {
                match store.rollback_tx("ROLLBACK") {
                    Ok(_) => {},
                    Err(_) => {},
                }
                return Err(StoreError { source: e });
            },
        }
        proof {
            lemma_keys_fresh_push(base, pend0, ref_row_of(refs@[i as int]));
            assert(rows_of_refs(refs@.take(i as int)).push(ref_row_of(refs@[i as int])) =~= rows_of_refs(
                refs@.take(i as int + 1),
            ));
        }
        i = i + 1;
    }
    proof {
        assert(refs@.take(refs@.len() as int) =~= refs@);
    }
    let ghost pendall = store.pending@->0;
    match store.commit_tx("COMMIT") {
        Ok(_) => {
            proof {
                if unique_keys(base) {
                    lemma_unique_keys_extend(base, pendall);
                }
            }
            Ok(())
        },
        Err(e) => Err(StoreError { source: e }),
    }
}

/// The commit sub-pipeline: normalizes every raw commit, chunks the records,
/// and persists chunk after chunk, each in its own transaction. On success
/// the store received exactly the rows owed to every raw commit, in
/// traversal order, and the count of commits is returned; on failure the
/// store received exactly the rows owed to a prefix of the raw commits (the
/// chunks whose transactions committed), and everything committed before the
/// call is untouched either way. An empty traversal always succeeds.
#[verifier::loop_isolation(false)]
pub fn get_commits_detail_array(store: &mut Store, raws: Vec<RawCommit>) -> (r: Result<
    usize,
    StoreError,
>)
    requires
        old(store).pending@ is None,
    ensures
        r matches Ok(n) ==> n == raws@.len(),
        r is Ok ==> final(store).committed@ == old(store).committed@ + rows_of_raw_commits(raws@)
            && final(store).pending@ is None,
        r is Err ==> exists|m: int|
            0 <= m * (CHUNK_SIZE as int) <= raws@.len() && final(store).committed@ == old(
                store,
            ).committed@ + rows_of_raw_commits(#[trigger] raws@.take(m * (CHUNK_SIZE as int))),
        final(store).ddl@ == old(store).ddl@,
        unique_keys(old(store).committed@) ==> unique_keys(final(store).committed@),
        raws@.len() == 0 ==> r is Ok,
{
    let ghost base = store.committed@;
    let ghost dbase = store.ddl@;
    let ghost all_raws = raws@;
    let records = normalize_commits(raws);
    let ghost recs = records@;
    let total = records.len();
    let chunks = chunk_records(records, CHUNK_SIZE);
    let ghost cvs = views_of_chunks(chunks@);
    proof {
        assert(cvs.take(0).flatten() =~= Seq::<CommitDetails>::empty());
        assert(recs.take(0) =~= Seq::<CommitDetails>::empty());
        assert(rows_of_commits(recs.take(0)) =~= Seq::<Row>::empty());
        assert(base + rows_of_commits(recs.take(0)) =~= base);
    }
    let mut done: usize = 0;
    let mut i: usize = 0;
    while i < chunks.len()
        invariant
            i <= chunks@.len(),
            cvs == views_of_chunks(chunks@),
            cvs.flatten() == recs,
            forall|k: int| 0 <= k < cvs.len() ==> #[trigger] cvs[k].len() > 0,
            recs.len() == total,
            total == all_raws.len(),
            forall|k: int|
                0 <= k < recs.len() ==> commit_normalized_from(#[trigger] recs[k], all_raws[k]),
            done == cvs.take(i as int).flatten().len(),
            cvs.take(i as int).flatten() == recs.take(done as int),
            store.committed@ == base + rows_of_commits(recs.take(done as int)),
            unique_keys(base) ==> unique_keys(store.committed@),
            store.pending@ is None,
            store.ddl@ == dbase,
        decreases chunks@.len() - i,
    {
        match batch_insert_commits(store, &chunks[i]) {
            Ok(_) => {},
            Err(e) => {
                proof {
                    lemma_flatten_take_succ(cvs, 0);
                    lemma_flatten_take_len(cvs, 1);
                    assert(cvs.take(0).flatten() =~= Seq::<CommitDetails>::empty());
                    lemma_flatten_take_len(cvs, i as int);
                    lemma_flatten_take_full_len(cvs, i as int, CHUNK_SIZE as int);
                    assert forall|k: int|
                        0 <= k < done implies commit_normalized_from(
                        #[trigger] recs.take(done as int)[k],
                        all_raws.take(done as int)[k],
                    ) by {}
                    lemma_rows_of_commits_normalized(
                        recs.take(done as int),
                        all_raws.take(done as int),
                    );
                }
                return Err(e);
            },
        }
        proof {
            lemma_flatten_take_succ(cvs, i as int);
            lemma_flatten_take_len(cvs, i as int + 1);
            lemma_flatten_take_prefix(cvs, i as int + 1);
            assert(cvs[i as int] == chunks@[i as int]@);
            let newdone = done as int + chunks@[i as int]@.len() as int;
            assert(cvs.take(i as int + 1).flatten() =~= recs.take(newdone));
            assert(recs.take(done as int) + cvs[i as int] =~= recs.take(newdone));
            lemma_rows_of_commits_concat(recs.take(done as int), cvs[i as int]);
            assert(store.committed@ == base + rows_of_commits(recs.take(done as int))
                + rows_of_commits(cvs[i as int]));
            assert(store.committed@ =~= base + rows_of_commits(recs.take(newdone)));
        }
        done = done + chunks[i].len();
        i = i + 1;
    }
    proof {
        assert(cvs.take(cvs.len() as int) =~= cvs);
        assert(recs.take(done as int) =~= recs);
        lemma_rows_of_commits_normalized(recs, all_raws);
    }
    Ok(done)
}

/// The reference sub-pipeline: normalizes every raw reference, chunks the
/// records, and persists chunk after chunk, each in its own transaction. On
/// success the store received exactly the rows owed to every raw reference,
/// in order, and the count is returned; on failure the rows owed to a prefix
/// of them. Everything committed before the call is untouched either way. An
/// empty reference set always succeeds.
#[verifier::loop_isolation(false)]
pub fn get_ref_details(store: &mut Store, raws: Vec<RawRef>) -> (r: Result<usize, StoreError>)
    requires
        old(store).pending@ is None,
    ensures
        r matches Ok(n) ==> n == raws@.len(),
        r is Ok ==> final(store).committed@ == old(store).committed@ + rows_of_raw_refs(raws@)
            && final(store).pending@ is None,
        r is Err ==> exists|m: int|
            0 <= m * (CHUNK_SIZE as int) <= raws@.len() && final(store).committed@ == old(
                store,
            ).committed@ + rows_of_raw_refs(#[trigger] raws@.take(m * (CHUNK_SIZE as int))),
        final(store).ddl@ == old(store).ddl@,
        unique_keys(old(store).committed@) ==> unique_keys(final(store).committed@),
        raws@.len() == 0 ==> r is Ok,
{
    let ghost base = store.committed@;
    let ghost dbase = store.ddl@;
    let ghost all_raws = raws@;
    let records = normalize_refs(raws);
    let ghost recs = records@;
    let total = records.len();
    let chunks = chunk_records(records, CHUNK_SIZE);
    let ghost cvs = views_of_chunks(chunks@);
    proof {
        assert(cvs.take(0).flatten() =~= Seq::<RefDetails>::empty());
        assert(recs.take(0) =~= Seq::<RefDetails>::empty());
        assert(rows_of_refs(recs.take(0)) =~= Seq::<Row>::empty());
        assert(base + rows_of_refs(recs.take(0)) =~= base);
    }
    let mut done: usize = 0;
    let mut i: usize = 0;
    while i < chunks.len()
        invariant
            i <= chunks@.len(),
            cvs == views_of_chunks(chunks@),
            cvs.flatten() == recs,
            forall|k: int| 0 <= k < cvs.len() ==> #[trigger] cvs[k].len() > 0,
            recs.len() == total,
            total == all_raws.len(),
            forall|k: int|
                0 <= k < recs.len() ==> ref_normalized_from(#[trigger] recs[k], all_raws[k]),
            done == cvs.take(i as int).flatten().len(),
            cvs.take(i as int).flatten() == recs.take(done as int),
            store.committed@ == base + rows_of_refs(recs.take(done as int)),
            unique_keys(base) ==> unique_keys(store.committed@),
            store.pending@ is None,
            store.ddl@ == dbase,
        decreases chunks@.len() - i,
    {
        match batch_insert_refs(store, &chunks[i]) {
            Ok(_) => {},
            Err(e) => {
                proof {
                    lemma_flatten_take_succ(cvs, 0);
                    lemma_flatten_take_len(cvs, 1);
                    assert(cvs.take(0).flatten() =~= Seq::<RefDetails>::empty());
                    lemma_flatten_take_len(cvs, i as int);
                    lemma_flatten_take_full_len(cvs, i as int, CHUNK_SIZE as int);
                    assert forall|k: int|
                        0 <= k < done implies ref_normalized_from(
                        #[trigger] recs.take(done as int)[k],
                        all_raws.take(done as int)[k],
                    ) by {}
                    lemma_rows_of_refs_normalized(
                        recs.take(done as int),
                        all_raws.take(done as int),
                    );
                }
                return Err(e);
            },
        }
        proof {
            lemma_flatten_take_succ(cvs, i as int);
            lemma_flatten_take_len(cvs, i as int + 1);
            lemma_flatten_take_prefix(cvs, i as int + 1);
            assert(cvs[i as int] == chunks@[i as int]@);
            let newdone = done as int + chunks@[i as int]@.len() as int;
            assert(cvs.take(i as int + 1).flatten() =~= recs.take(newdone));
            assert(recs.take(done as int) + cvs[i as int] =~= recs.take(newdone));
            lemma_rows_of_refs_concat(recs.take(done as int), cvs[i as int]);
            assert(store.committed@ == base + rows_of_refs(recs.take(done as int)) + rows_of_refs(
                cvs[i as int],
            ));
            assert(store.committed@ =~= base + rows_of_refs(recs.take(newdone)));
        }
        done = done + chunks[i].len();
        i = i + 1;
    }
    proof {
        assert(cvs.take(cvs.len() as int) =~= cvs);
        assert(recs.take(done as int) =~= recs);
        lemma_rows_of_refs_normalized(recs, all_raws);
    }
    Ok(done)
}

/// One full run over one destination: the commit sub-pipeline first, the
/// reference sub-pipeline only after every commit chunk has committed — on
/// success the appended rows are all the commit rows followed by all the
/// reference rows. On failure nothing already durable is lost: everything
/// committed before the call stays a prefix of the store's contents. An
/// empty repository always succeeds.
pub fn run_pipeline(store: &mut Store, raw_commits: Vec<RawCommit>, raw_refs: Vec<RawRef>) -> (r:
    Result<(usize, usize), StoreError>)
    requires
        old(store).pending@ is None,
    ensures
        r matches Ok(counts) ==> counts.0 == raw_commits@.len() && counts.1 == raw_refs@.len(),
        r is Ok ==> final(store).committed@ == old(store).committed@ + rows_of_raw_commits(
            raw_commits@,
        ) + rows_of_raw_refs(raw_refs@) && final(store).pending@ is None,
        r is Err ==> old(store).committed@.is_prefix_of(final(store).committed@),
        final(store).ddl@ == old(store).ddl@,
        unique_keys(old(store).committed@) ==> unique_keys(final(store).committed@),
        raw_commits@.len() == 0 && raw_refs@.len() == 0 ==> r is Ok,
{
    let ghost base = store.committed@;
    let n_commits = match get_commits_detail_array(store, raw_commits) {
        Ok(n) => n,
        Err(e) => {
            proof {
                assert(store.committed@.subrange(0, base.len() as int) =~= base);
            }
            return Err(e);
        },
    };
    let n_refs = match get_ref_details(store, raw_refs) {
        Ok(n) => n,
        Err(e) => {
            proof {
                assert(store.committed@.subrange(0, base.len() as int) =~= base);
            }
            return Err(e);
        },
    };
    Ok((n_commits, n_refs))
}

} // verus!
