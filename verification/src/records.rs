//! Raw inputs from the graph source, the flat records that get stored, and
//! the normalizer that maps one to the other with fixed fallback values.

use vstd::prelude::*;

verus! {

/// Kind of a reference pointer as reported by the graph source. A reference
/// whose kind the source cannot determine is `Unknown`.
#[derive(Clone, Copy, PartialEq, Eq, Structural, Debug)]
pub enum RefKind {
    Direct,
    Symbolic,
    Unknown,
}

/// A commit as handed over by the graph source, before normalization:
/// the optional fields may still be missing.
pub struct RawCommit {
    pub id: String,
    pub author: Option<String>,
    pub date: i64,
    pub message: Option<String>,
    pub parents: Vec<String>,
}

/// A reference as handed over by the graph source, before normalization.
pub struct RawRef {
    pub name: Option<String>,
    pub target: Option<String>,
    pub kind: RefKind,
}

/// A flat commit row ready for storage, together with its parent list from
/// which the relation rows are derived.
pub struct CommitDetails {
    pub id: String,
    pub author: String,
    pub date: i64,
    pub message: String,
    pub parents: Vec<String>,
}

/// A flat reference row ready for storage.
pub struct RefDetails {
    pub name: String,
    pub id: String,
    pub kind: String,
}

/// The author stored for a commit: the raw author when present, else "Unknown".
pub open spec fn normalized_author(author: Option<String>) -> Seq<char> {
    match author {
        Some(a) => a@,
        None => "Unknown"@,
    }
}

/// The message stored for a commit: the raw message when present, else "No message".
pub open spec fn normalized_message(message: Option<String>) -> Seq<char> {
    match message {
        Some(m) => m@,
        None => "No message"@,
    }
}

/// The name stored for a reference: the raw name when present, else empty.
pub open spec fn normalized_ref_name(name: Option<String>) -> Seq<char> {
    match name {
        Some(n) => n@,
        None => ""@,
    }
}

/// The target stored for a reference: the raw target when present, else "Unknown".
pub open spec fn normalized_ref_target(target: Option<String>) -> Seq<char> {
    match target {
        Some(t) => t@,
        None => "Unknown"@,
    }
}

/// The text under which a reference kind is stored.
pub open spec fn kind_label(kind: RefKind) -> Seq<char> {
    match kind {
        RefKind::Direct => "Direct"@,
        RefKind::Symbolic => "Symbolic"@,
        RefKind::Unknown => "Unknown"@,
    }
}

/// The parent identifiers of a commit row, as mathematical sequences.
pub open spec fn parent_views(c: CommitDetails) -> Seq<Seq<char>> {
    c.parents@.map_values(|p: String| p@)
}

/// Field-by-field statement that `c` is the normalization of `raw`.
pub open spec fn commit_normalized_from(c: CommitDetails, raw: RawCommit) -> bool {
    &&& c.id@ == raw.id@
    &&& c.author@ == normalized_author(raw.author)
    &&& c.date == raw.date
    &&& c.message@ == normalized_message(raw.message)
    &&& c.parents@ == raw.parents@
}

/// Field-by-field statement that `d` is the normalization of `raw`.
pub open spec fn ref_normalized_from(d: RefDetails, raw: RawRef) -> bool {
    &&& d.name@ == normalized_ref_name(raw.name)
    &&& d.id@ == normalized_ref_target(raw.target)
    &&& d.kind@ == kind_label(raw.kind)
}

/// Normalizes one raw commit into a flat record: a pure transformation with
/// no failure path, substituting the fixed fallbacks for missing fields.
pub fn extract_commit_details(raw: RawCommit) -> (c: CommitDetails)
    ensures
        commit_normalized_from(c, raw),
{
    let author = match raw.author {
        Some(a) => a,
        None => "Unknown".to_owned(),
    };
    let message = match raw.message {
        Some(m) => m,
        None => "No message".to_owned(),
    };
    CommitDetails { id: raw.id, author, date: raw.date, message, parents: raw.parents }
}

/// Normalizes one raw reference into a flat record: a pure transformation
/// with no failure path, substituting the fixed fallbacks for missing fields.
pub fn extract_ref_details(raw: RawRef) -> (d: RefDetails)
    ensures
        ref_normalized_from(d, raw),
{
    let name = match raw.name {
        Some(n) => n,
        None => "".to_owned(),
    };
    let id = match raw.target {
        Some(t) => t,
        None => "Unknown".to_owned(),
    };
    let kind = match raw.kind {
        RefKind::Direct => "Direct".to_owned(),
        RefKind::Symbolic => "Symbolic".to_owned(),
        RefKind::Unknown => "Unknown".to_owned(),
    };
    RefDetails { name, id, kind }
}

} // verus!
