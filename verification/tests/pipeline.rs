use githist::batch::{chunk_records, CHUNK_SIZE};
use githist::pipeline::{
    batch_insert_commits, create_database, get_commits_detail_array, get_ref_details, run_pipeline,
};
use githist::records::{
    extract_commit_details, extract_ref_details, CommitDetails, RawCommit, RawRef, RefKind,
};
use githist::sink::Store;
use rusqlite::Connection;

fn mk_commit(id: &str, author: Option<&str>, date: i64, message: Option<&str>, parents: &[&str]) -> RawCommit {
    RawCommit {
        id: id.to_string(),
        author: author.map(|s| s.to_string()),
        date,
        message: message.map(|s| s.to_string()),
        parents: parents.iter().map(|s| s.to_string()).collect(),
    }
}

fn mk_ref(name: Option<&str>, target: Option<&str>, kind: RefKind) -> RawRef {
    RawRef {
        name: name.map(|s| s.to_string()),
        target: target.map(|s| s.to_string()),
        kind,
    }
}

fn fresh_db() -> Store {
    let conn = Connection::open_in_memory().expect("open in-memory store");
    let mut store = Store::new(conn);
    create_database(&mut store).expect("schema bootstrap");
    store
}

fn count(store: &Store, table: &str) -> i64 {
    store.connection().query_row(&format!("SELECT COUNT(*) FROM {}", table), (), |row| row.get(0))
        .expect("count query")
}

fn commit_present(store: &Store, id: &str) -> bool {
    let n: i64 = store.connection()
        .query_row(
            "SELECT COUNT(*) FROM commit_details WHERE id = ?1",
            (id.to_string(),),
            |row| row.get(0),
        )
        .expect("presence query");
    n == 1
}

fn relation_present(store: &Store, parent: &str, child: &str) -> bool {
    let n: i64 = store.connection()
        .query_row(
            "SELECT COUNT(*) FROM commit_relation WHERE parent = ?1 AND child = ?2",
            (parent.to_string(), child.to_string()),
            |row| row.get(0),
        )
        .expect("relation query");
    n == 1
}

#[test]
fn end_to_end_single_root_commit() {
    let mut conn = fresh_db();
    let commits = vec![mk_commit("A", Some("alice"), 100, Some("init"), &[])];
    let refs = vec![mk_ref(Some("refs/heads/main"), Some("A"), RefKind::Direct)];
    let counts = run_pipeline(&mut conn, commits, refs).expect("run succeeds");
    assert_eq!(counts, (1, 1));
    assert_eq!(count(&conn, "commit_details"), 1);
    assert_eq!(count(&conn, "commit_relation"), 0);
    assert_eq!(count(&conn, "ref_details"), 1);
    let (author, message): (String, String) = conn.connection()
        .query_row(
            "SELECT author, message FROM commit_details WHERE id = ?1",
            ("A".to_string(),),
            |row| Ok((row.get(0)?, row.get(1)?)),
        )
        .expect("commit row");
    assert_eq!(author, "alice");
    assert_eq!(message, "init");
    let (name, id, kind): (String, String, String) = conn.connection()
        .query_row("SELECT name, id, kind FROM ref_details", (), |row| {
            Ok((row.get(0)?, row.get(1)?, row.get(2)?))
        })
        .expect("ref row");
    assert_eq!(name, "refs/heads/main");
    assert_eq!(id, "A");
    assert_eq!(kind, "Direct");
}

#[test]
fn completeness_across_chunks() {
    let mut conn = fresh_db();
    let commits: Vec<RawCommit> = (0..120)
        .map(|i| {
            let id = format!("c{:03}", i);
            mk_commit(&id, Some("a"), i, Some("m"), &[])
        })
        .collect();
    let refs = vec![
        mk_ref(Some("refs/heads/main"), Some("c000"), RefKind::Direct),
        mk_ref(Some("refs/tags/v1"), Some("c010"), RefKind::Direct),
        mk_ref(Some("HEAD"), Some("refs/heads/main"), RefKind::Symbolic),
    ];
    let counts = run_pipeline(&mut conn, commits, refs).expect("run succeeds");
    assert_eq!(counts, (120, 3));
    assert_eq!(count(&conn, "commit_details"), 120);
    assert_eq!(count(&conn, "ref_details"), 3);
}

#[test]
fn empty_repository_yields_empty_tables() {
    let mut conn = fresh_db();
    let counts = run_pipeline(&mut conn, Vec::new(), Vec::new()).expect("run succeeds");
    assert_eq!(counts, (0, 0));
    assert_eq!(count(&conn, "commit_details"), 0);
    assert_eq!(count(&conn, "commit_relation"), 0);
    assert_eq!(count(&conn, "ref_details"), 0);
}

#[test]
fn edge_count_matches_parent_counts() {
    let mut conn = fresh_db();
    let commits = vec![
        mk_commit("merge", Some("a"), 3, Some("m"), &["left", "right"]),
        mk_commit("left", Some("a"), 2, Some("m"), &["root"]),
        mk_commit("right", Some("a"), 2, Some("m"), &["root"]),
        mk_commit("root", Some("a"), 1, Some("m"), &[]),
    ];
    let n = get_commits_detail_array(&mut conn, commits).expect("run succeeds");
    assert_eq!(n, 4);
    assert_eq!(count(&conn, "commit_relation"), 4);
    assert!(relation_present(&conn, "left", "merge"));
    assert!(relation_present(&conn, "right", "merge"));
    assert!(relation_present(&conn, "root", "left"));
    assert!(relation_present(&conn, "root", "right"));
}

#[test]
fn fallback_substitution_for_missing_fields() {
    let mut conn = fresh_db();
    let commits = vec![mk_commit("A", None, 5, None, &[])];
    let refs = vec![mk_ref(Some("refs/heads/dangling"), None, RefKind::Direct)];
    run_pipeline(&mut conn, commits, refs).expect("run succeeds");
    let (author, message): (String, String) = conn.connection()
        .query_row(
            "SELECT author, message FROM commit_details WHERE id = ?1",
            ("A".to_string(),),
            |row| Ok((row.get(0)?, row.get(1)?)),
        )
        .expect("commit row");
    assert_eq!(author, "Unknown");
    assert_eq!(message, "No message");
    let target: String = conn.connection()
        .query_row("SELECT id FROM ref_details", (), |row| row.get(0))
        .expect("ref row");
    assert_eq!(target, "Unknown");
}

#[test]
fn batch_atomicity_failed_chunk_leaves_no_rows() {
    let mut conn = fresh_db();
    // The 100th commit collides with a pre-existing row, so the 50th insert
    // of the second chunk fails and that whole chunk must be discarded.
    conn.connection().execute(
        "INSERT INTO commit_details (id, author, date, message) VALUES (?1, ?2, ?3, ?4)",
        ("c099".to_string(), "x".to_string(), 0i64, "m".to_string()),
    )
    .expect("pre-insert");
    let commits: Vec<RawCommit> = (0..100)
        .map(|i| {
            let id = format!("c{:03}", i);
            mk_commit(&id, Some("a"), i, Some("m"), &[])
        })
        .collect();
    let result = get_commits_detail_array(&mut conn, commits);
    assert!(result.is_err());
    // The first chunk's 50 rows remain, plus the pre-inserted row; nothing
    // from the failed chunk is visible.
    assert_eq!(count(&conn, "commit_details"), 51);
    assert!(commit_present(&conn, "c000"));
    assert!(commit_present(&conn, "c049"));
    assert!(!commit_present(&conn, "c050"));
    assert!(!commit_present(&conn, "c098"));
}

#[test]
fn second_run_fails_on_first_duplicate() {
    let mut conn = fresh_db();
    let make_inputs = || {
        let commits = vec![
            mk_commit("B", Some("a"), 2, Some("m"), &["A"]),
            mk_commit("A", Some("a"), 1, Some("m"), &[]),
        ];
        let refs = vec![mk_ref(Some("refs/heads/main"), Some("B"), RefKind::Direct)];
        (commits, refs)
    };
    let (commits, refs) = make_inputs();
    run_pipeline(&mut conn, commits, refs).expect("first run succeeds");
    let (commits, refs) = make_inputs();
    let second = run_pipeline(&mut conn, commits, refs);
    assert!(second.is_err());
    // No silent duplicates or updates: the stored rows are unchanged.
    assert_eq!(count(&conn, "commit_details"), 2);
    assert_eq!(count(&conn, "commit_relation"), 1);
    assert_eq!(count(&conn, "ref_details"), 1);
}

#[test]
fn relation_row_present_regardless_of_traversal_order() {
    // Reverse-chronological traversal: the child C2 arrives before its
    // parent C1.
    let mut conn = fresh_db();
    let commits = vec![
        mk_commit("C2", Some("a"), 2, Some("m"), &["C1"]),
        mk_commit("C1", Some("a"), 1, Some("m"), &[]),
    ];
    get_commits_detail_array(&mut conn, commits).expect("run succeeds");
    assert!(relation_present(&conn, "C1", "C2"));
    assert!(commit_present(&conn, "C1"));
    assert!(commit_present(&conn, "C2"));

    // And the other way round as well.
    let mut conn2 = fresh_db();
    let commits2 = vec![
        mk_commit("C1", Some("a"), 1, Some("m"), &[]),
        mk_commit("C2", Some("a"), 2, Some("m"), &["C1"]),
    ];
    get_commits_detail_array(&mut conn2, commits2).expect("run succeeds");
    assert!(relation_present(&conn2, "C1", "C2"));
    assert!(commit_present(&conn2, "C1"));
    assert!(commit_present(&conn2, "C2"));
}

#[test]
fn chunking_boundary_sizes() {
    for n in [0usize, 1, 49, 50, 51] {
        let records: Vec<u64> = (0..n as u64).collect();
        let chunks = chunk_records(records, CHUNK_SIZE);
        let flattened: Vec<u64> = chunks.iter().flatten().copied().collect();
        let expected: Vec<u64> = (0..n as u64).collect();
        assert_eq!(flattened, expected);
        for (i, chunk) in chunks.iter().enumerate() {
            assert!(!chunk.is_empty());
            assert!(chunk.len() <= CHUNK_SIZE);
            if i + 1 < chunks.len() {
                assert_eq!(chunk.len(), CHUNK_SIZE);
            }
        }
        let expected_chunks = if n == 0 { 0 } else { (n + CHUNK_SIZE - 1) / CHUNK_SIZE };
        assert_eq!(chunks.len(), expected_chunks);
    }
}

#[test]
fn chunking_preserves_order_within_and_across_chunks() {
    let records: Vec<u64> = (0..7).collect();
    let chunks = chunk_records(records, 3);
    assert_eq!(chunks, vec![vec![0, 1, 2], vec![3, 4, 5], vec![6]]);
}

#[test]
fn normalizer_keeps_present_fields_and_parents() {
    let raw = mk_commit("abc", Some("bob"), 42, Some("hello"), &["p1", "p2"]);
    let c: CommitDetails = extract_commit_details(raw);
    assert_eq!(c.id, "abc");
    assert_eq!(c.author, "bob");
    assert_eq!(c.date, 42);
    assert_eq!(c.message, "hello");
    assert_eq!(c.parents, vec!["p1".to_string(), "p2".to_string()]);
}

#[test]
fn normalizer_maps_reference_kinds() {
    let direct = extract_ref_details(mk_ref(Some("r1"), Some("t"), RefKind::Direct));
    assert_eq!(direct.kind, "Direct");
    let symbolic = extract_ref_details(mk_ref(Some("r2"), Some("t"), RefKind::Symbolic));
    assert_eq!(symbolic.kind, "Symbolic");
    let unknown = extract_ref_details(mk_ref(Some("r3"), Some("t"), RefKind::Unknown));
    assert_eq!(unknown.kind, "Unknown");
    let unnamed = extract_ref_details(mk_ref(None, Some("t"), RefKind::Direct));
    assert_eq!(unnamed.name, "");
}

#[test]
fn reference_batches_commit_per_chunk() {
    let mut conn = fresh_db();
    let refs: Vec<RawRef> = (0..75)
        .map(|i| {
            let name = format!("refs/tags/v{}", i);
            mk_ref(Some(&name), Some("A"), RefKind::Direct)
        })
        .collect();
    let n = get_ref_details(&mut conn, refs).expect("run succeeds");
    assert_eq!(n, 75);
    assert_eq!(count(&conn, "ref_details"), 75);
}

#[test]
fn failed_commit_chunk_keeps_relation_rows_out_too() {
    let mut conn = fresh_db();
    // A chunk holds commit rows and their relation rows in one transaction:
    // when the commit row insert fails, the relation rows of earlier records
    // in the same chunk vanish with it.
    conn.connection().execute(
        "INSERT INTO commit_details (id, author, date, message) VALUES (?1, ?2, ?3, ?4)",
        ("B".to_string(), "x".to_string(), 0i64, "m".to_string()),
    )
    .expect("pre-insert");
    let commits = vec![
        mk_commit("A", Some("a"), 2, Some("m"), &["Z"]),
        mk_commit("B", Some("a"), 1, Some("m"), &[]),
    ];
    let result = batch_insert_commits(&mut conn, &commits.into_iter().map(extract_commit_details).collect());
    assert!(result.is_err());
    assert_eq!(count(&conn, "commit_details"), 1);
    assert_eq!(count(&conn, "commit_relation"), 0);
}
