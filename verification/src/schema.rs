//! The sync columns of the records table: which of them an older table
//! lacks, and how the text kept in the sync-status column is read and
//! written.
use vstd::prelude::*;
use crate::record::SyncStatus;
use crate::text::{contains_text, text_eq, text_views};

verus! {

/// The column holding the deletion time.
pub open spec fn deleted_at_column() -> Seq<char> {
    seq!['d', 'e', 'l', 'e', 't', 'e', 'd', '_', 'a', 't']
}

/// The column holding the sync status.
pub open spec fn sync_status_column() -> Seq<char> {
    seq!['s', 'y', 'n', 'c', '_', 's', 't', 'a', 't', 'u', 's']
}

/// The text of the status `Dirty`.
pub open spec fn dirty_text() -> Seq<char> {
    seq!['d', 'i', 'r', 't', 'y']
}

/// The text of the status `Synced`.
pub open spec fn synced_text() -> Seq<char> {
    seq!['s', 'y', 'n', 'c', 'e', 'd']
}

/// A column that a table made by an earlier version lacks and that has to
/// be added.
#[derive(Clone, Copy, Debug, PartialEq, Eq, Structural)]
pub enum SchemaChange {
    /// Add the nullable `deleted_at` text column.
    AddDeletedAt,
    /// Add the `sync_status` text column, `dirty` by default.
    AddSyncStatus,
}

/// The column a change adds.
pub open spec fn added_column(c: SchemaChange) -> Seq<char> {
    match c {
        SchemaChange::AddDeletedAt => deleted_at_column(),
        SchemaChange::AddSyncStatus => sync_status_column(),
    }
}

/// The changes a table with these columns needs: `deleted_at` first, then
/// `sync_status`, each only when missing.
pub open spec fn sync_column_changes(columns: Seq<Seq<char>>) -> Seq<SchemaChange> {
    let first: Seq<SchemaChange> = if columns.contains(deleted_at_column()) {
        Seq::empty()
    } else {
        seq![SchemaChange::AddDeletedAt]
    };
    let second: Seq<SchemaChange> = if columns.contains(sync_status_column()) {
        Seq::empty()
    } else {
        seq![SchemaChange::AddSyncStatus]
    };
    first + second
}

/// The sync status that a stored text stands for: `synced` is `Synced`;
/// anything else, or nothing, is `Dirty`.
pub open spec fn sync_status_of(raw: Option<Seq<char>>) -> SyncStatus {
    if raw == Some(synced_text()) {
        SyncStatus::Synced
    } else {
        SyncStatus::Dirty
    }
}

/// The text stored for a sync status.
pub open spec fn sync_status_text(s: SyncStatus) -> Seq<char> {
    match s {
        SyncStatus::Dirty => dirty_text(),
        SyncStatus::Synced => synced_text(),
    }
}

/// Whether a table with these columns has `column`.
pub fn column_exists(columns: &Vec<String>, column: &str) -> (b: bool)
    ensures
        b == text_views(columns@).contains(column@),
{
    contains_text(columns, column)
}

/// The columns to add to a table with these columns so that it holds the
/// sync columns.
pub fn ensure_sync_columns(columns: &Vec<String>) -> (r: Vec<SchemaChange>)
    ensures
        r@ == sync_column_changes(text_views(columns@)),
{
    proof {
        reveal_strlit("deleted_at");
        reveal_strlit("sync_status");
    }
    assert("deleted_at"@ =~= deleted_at_column());
    assert("sync_status"@ =~= sync_status_column());
    let mut r: Vec<SchemaChange> = Vec::new();
    if !column_exists(columns, "deleted_at") {
        r.push(SchemaChange::AddDeletedAt);
    }
    if !column_exists(columns, "sync_status") {
        r.push(SchemaChange::AddSyncStatus);
    }
    assert(r@ =~= sync_column_changes(text_views(columns@)));
    r
}

impl SchemaChange {
    /// The name of the column this change adds.
    pub fn column_name(&self) -> (r: String)
        ensures
            r@ == added_column(*self),
    {
        proof {
            reveal_strlit("deleted_at");
            reveal_strlit("sync_status");
        }
        match self {
            SchemaChange::AddDeletedAt => {
                let r: String = "deleted_at".to_owned();
                assert(r@ =~= deleted_at_column());
                r
            },
            SchemaChange::AddSyncStatus => {
                let r: String = "sync_status".to_owned();
                assert(r@ =~= sync_status_column());
                r
            },
        }
    }
}

/// The sync status that a stored text stands for; a missing or unknown
/// value counts as `Dirty`, so that the record is uploaded again.
pub fn normalize_sync_status(raw: Option<&str>) -> (s: SyncStatus)
    ensures
        s == sync_status_of(
            match raw {
                Some(t) => Some(t@),
                None => None,
            },
        ),
{
    proof {
        reveal_strlit("synced");
    }
    assert("synced"@ =~= synced_text());
    match raw {
        Some(t) => if text_eq(t, "synced") {
            SyncStatus::Synced
        } else {
            SyncStatus::Dirty
        },
        None => SyncStatus::Dirty,
    }
}

impl SyncStatus {
    /// The text stored for this status.
    pub fn as_text(&self) -> (r: String)
        ensures
            r@ == sync_status_text(*self),
    {
        proof {
            reveal_strlit("dirty");
            reveal_strlit("synced");
        }
        match self {
            SyncStatus::Dirty => {
                let r: String = "dirty".to_owned();
                assert(r@ =~= dirty_text());
                r
            },
            SyncStatus::Synced => {
                let r: String = "synced".to_owned();
                assert(r@ =~= synced_text());
                r
            },
        }
    }
}

} // verus!
