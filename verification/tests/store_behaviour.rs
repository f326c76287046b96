use frostnote::record::{RecordItem, StoredRecord, SyncStatus};
use frostnote::schema::{column_exists, ensure_sync_columns};
use frostnote::store::{RecordStore, StoreError};
use frostnote::todo::{next_todo_status, next_todo_status_at};

fn legacy_todo(id: &str, date: &str, status: Option<&str>, completed_at: Option<&str>) -> RecordItem {
    RecordItem {
        id: id.to_string(),
        record_type: "todo".to_string(),
        content: "legacy todo".to_string(),
        date: date.to_string(),
        status: status.map(|s| s.to_string()),
        created_at: "2026-06-10T00:00:00Z".to_string(),
        updated_at: "2026-06-10T00:00:00Z".to_string(),
        completed_at: completed_at.map(|s| s.to_string()),
        rolled_over_from_date: None,
        deleted_at: None,
    }
}

fn insert_todo(
    store: &mut RecordStore,
    id: &str,
    date: &str,
    status: Option<&str>,
    completed_at: Option<&str>,
) {
    store
        .add_record(legacy_todo(id, date, status, completed_at))
        .expect("insert todo");
}

fn stored(store: &RecordStore, id: &str) -> RecordItem {
    store
        .read_sync_records()
        .into_iter()
        .find(|r| r.id == id)
        .expect("record is stored")
}

fn sync_status_of(store: &RecordStore, id: &str) -> SyncStatus {
    store
        .rows()
        .into_iter()
        .find(|r| r.record.id == id)
        .expect("row is stored")
        .sync_status
}

#[test]
fn toggling_done_returns_to_pending() {
    let (status, completed_at) = next_todo_status(Some("done"));

    assert_eq!(status.as_deref(), Some("pending"));
    assert!(completed_at.is_none());
}

#[test]
fn normalizes_legacy_null_todo_status() {
    let mut store = RecordStore::new();
    insert_todo(&mut store, "legacy-null", "2026-06-10", None, None);

    store.normalize_todo_statuses();

    let status = stored(&store, "legacy-null").status;
    assert_eq!(status.as_deref(), Some("pending"));
}

#[test]
fn rolls_over_legacy_null_pending_todo() {
    let mut store = RecordStore::new();
    insert_todo(&mut store, "legacy-overdue", "2026-06-10", None, None);

    let updated = store.rollover_overdue_todos("2026-06-11");

    assert_eq!(updated, 1);
    let rolled = stored(&store, "legacy-overdue");
    assert_eq!(rolled.date, "2026-06-11");
    assert_eq!(rolled.status.as_deref(), Some("pending"));
    assert_eq!(rolled.rolled_over_from_date.as_deref(), Some("2026-06-10"));
}

#[test]
fn migrates_existing_database_with_sync_columns() {
    let mut columns: Vec<String> = [
        "id",
        "type",
        "content",
        "date",
        "status",
        "created_at",
        "updated_at",
        "completed_at",
        "rolled_over_from_date",
    ]
    .iter()
    .map(|c| c.to_string())
    .collect();

    for change in ensure_sync_columns(&columns) {
        columns.push(change.column_name());
    }

    let deleted_at_exists = column_exists(&columns, "deleted_at");
    let sync_status_exists = column_exists(&columns, "sync_status");
    assert!(deleted_at_exists);
    assert!(sync_status_exists);
}

#[test]
fn soft_deleted_records_are_hidden_from_visible_list() {
    let mut store = RecordStore::new();
    insert_todo(&mut store, "delete-me", "2026-06-11", Some("pending"), None);

    store.soft_delete_record("delete-me");

    let records = store.read_visible_records();
    assert!(records.iter().all(|record| record.id != "delete-me"));
    let tombstone = stored(&store, "delete-me");
    let deleted_at = tombstone.deleted_at.expect("read tombstone");
    assert!(!deleted_at.is_empty());
    assert_eq!(sync_status_of(&store, "delete-me"), SyncStatus::Dirty);
    assert_eq!(sync_status_of(&store, "delete-me").as_text(), "dirty");
}

#[test]
fn remote_newer_record_replaces_local_record() {
    let mut store = RecordStore::new();
    insert_todo(&mut store, "shared", "2026-06-11", Some("pending"), None);

    let remote = RecordItem {
        id: "shared".to_string(),
        record_type: "todo".to_string(),
        content: "remote content".to_string(),
        date: "2026-06-12".to_string(),
        status: Some("done".to_string()),
        created_at: "2026-06-10T00:00:00Z".to_string(),
        updated_at: "2026-06-12T00:00:00Z".to_string(),
        completed_at: Some("2026-06-12T00:00:00Z".to_string()),
        rolled_over_from_date: None,
        deleted_at: None,
    };

    store.apply_remote_records_to_db(&vec![remote]);

    let merged = stored(&store, "shared");
    assert_eq!(merged.content, "remote content");
    assert_eq!(merged.date, "2026-06-12");
    assert_eq!(merged.status.as_deref(), Some("done"));
}

#[test]
fn remote_older_record_does_not_replace_local_record() {
    let mut store = RecordStore::new();
    insert_todo(&mut store, "shared", "2026-06-11", Some("pending"), None);

    let remote = RecordItem {
        id: "shared".to_string(),
        record_type: "todo".to_string(),
        content: "old remote content".to_string(),
        date: "2026-06-09".to_string(),
        status: Some("done".to_string()),
        created_at: "2026-06-09T00:00:00Z".to_string(),
        updated_at: "2026-06-09T00:00:00Z".to_string(),
        completed_at: Some("2026-06-09T00:00:00Z".to_string()),
        rolled_over_from_date: None,
        deleted_at: None,
    };

    store.apply_remote_records_to_db(&vec![remote]);

    let merged = stored(&store, "shared");
    assert_eq!(merged.content, "legacy todo");
    assert_eq!(merged.date, "2026-06-11");
    assert_eq!(merged.status.as_deref(), Some("pending"));
}

#[test]
fn reads_only_dirty_records_for_upload() {
    let mut store = RecordStore::new();
    insert_todo(&mut store, "dirty-record", "2026-06-11", Some("pending"), None);
    insert_todo(&mut store, "synced-record", "2026-06-11", Some("pending"), None);
    store.mark_records_synced(&vec!["synced-record".to_string()]);

    let records = store.read_dirty_sync_records();

    assert_eq!(records.len(), 1);
    assert_eq!(records[0].id, "dirty-record");
}

#[test]
fn adding_a_stored_id_is_refused() {
    let mut store = RecordStore::new();
    insert_todo(&mut store, "a", "2026-06-11", Some("pending"), None);
    store.soft_delete_record("a");

    let again = store.add_record(legacy_todo("a", "2026-06-12", Some("pending"), None));

    assert_eq!(again, Err(StoreError::DuplicateId));
    assert_eq!(store.read_sync_records().len(), 1);
    assert_eq!(stored(&store, "a").date, "2026-06-11");
}

#[test]
fn rows_with_repeated_ids_are_refused() {
    let row = StoredRecord {
        record: legacy_todo("x", "2026-06-11", Some("pending"), None),
        sync_status: SyncStatus::Synced,
    };
    assert!(RecordStore::from_rows(vec![row.clone(), row.clone()]).is_none());
    let store = RecordStore::from_rows(vec![row.clone()]).expect("distinct ids");
    assert_eq!(store.rows(), vec![row]);
}

#[test]
fn remote_record_without_local_copy_is_added_as_synced() {
    let mut store = RecordStore::new();
    let mut remote = legacy_todo("new", "2026-06-12", Some("done"), Some("2026-06-12T08:00:00Z"));
    remote.updated_at = "2026-06-12T08:00:00Z".to_string();

    store.apply_remote_records_to_db(&vec![remote.clone()]);

    assert_eq!(store.read_sync_records(), vec![remote]);
    assert_eq!(sync_status_of(&store, "new"), SyncStatus::Synced);
    assert!(store.read_dirty_sync_records().is_empty());
}

#[test]
fn remote_record_with_equal_timestamp_keeps_local_copy() {
    let mut store = RecordStore::new();
    insert_todo(&mut store, "same", "2026-06-11", Some("pending"), None);
    let mut remote = legacy_todo("same", "2026-06-20", Some("done"), None);
    remote.content = "remote".to_string();

    store.apply_remote_records_to_db(&vec![remote]);

    assert_eq!(stored(&store, "same").content, "legacy todo");
    assert_eq!(sync_status_of(&store, "same"), SyncStatus::Dirty);
}

#[test]
fn remote_tombstone_hides_record_and_is_not_undone_by_a_repeat() {
    let mut store = RecordStore::new();
    insert_todo(&mut store, "gone", "2026-06-11", Some("pending"), None);
    let mut tombstone = legacy_todo("gone", "2026-06-11", Some("pending"), None);
    tombstone.updated_at = "2026-06-13T00:00:00Z".to_string();
    tombstone.deleted_at = Some("2026-06-13T00:00:00Z".to_string());
    let older = legacy_todo("gone", "2026-06-11", Some("pending"), None);
    let batch = vec![tombstone, older];

    store.apply_remote_records_to_db(&batch);
    let once = store.rows();
    store.apply_remote_records_to_db(&batch);

    assert_eq!(store.rows(), once);
    assert!(store.read_visible_records().is_empty());
}

#[test]
fn toggle_completes_then_reopens() {
    let mut store = RecordStore::new();
    insert_todo(&mut store, "t", "2026-06-11", Some("pending"), None);
    store.mark_records_synced(&vec!["t".to_string()]);

    store.toggle_todo("t");
    let done = stored(&store, "t");
    assert_eq!(done.status.as_deref(), Some("done"));
    assert!(done.completed_at.map_or(false, |c| c.len() >= 19));
    assert_ne!(done.updated_at, "2026-06-10T00:00:00Z");
    assert_eq!(sync_status_of(&store, "t"), SyncStatus::Dirty);

    store.toggle_todo("t");
    let reopened = stored(&store, "t");
    assert_eq!(reopened.status.as_deref(), Some("pending"));
    assert_eq!(reopened.completed_at, None);
}

#[test]
fn toggling_a_missing_record_changes_nothing() {
    let mut store = RecordStore::new();
    insert_todo(&mut store, "t", "2026-06-11", Some("pending"), None);
    let before = store.rows();

    store.toggle_todo("other");

    assert_eq!(store.rows(), before);
}

#[test]
fn next_status_of_a_pending_todo_is_done_now() {
    let (status, completed_at) = next_todo_status(Some("pending"));
    assert_eq!(status.as_deref(), Some("done"));
    let completed_at = completed_at.expect("completion time");
    assert!(completed_at.len() >= 19);
    assert_eq!(&completed_at[10..11], "T");

    let (status, completed_at) = next_todo_status(None);
    assert_eq!(status.as_deref(), Some("done"));
    assert!(completed_at.is_some());
}

#[test]
fn rollover_skips_done_deleted_future_and_notes() {
    let mut store = RecordStore::new();
    insert_todo(&mut store, "done", "2026-06-01", Some("done"), Some("2026-06-01T00:00:00Z"));
    insert_todo(&mut store, "future", "2026-06-20", Some("pending"), None);
    insert_todo(&mut store, "today", "2026-06-11", Some("pending"), None);
    insert_todo(&mut store, "deleted", "2026-06-01", Some("pending"), None);
    store.soft_delete_record("deleted");
    let mut note = legacy_todo("note", "2026-06-01", None, None);
    note.record_type = "note".to_string();
    store.add_record(note).expect("add note");
    insert_todo(&mut store, "null-completed", "2026-06-01", None, Some("2026-06-02T00:00:00Z"));
    let before = store.rows();

    let moved = store.rollover_overdue_todos("2026-06-11");

    assert_eq!(moved, 0);
    assert_eq!(store.rows(), before);
}

#[test]
fn rollover_keeps_first_origin_and_second_run_moves_nothing() {
    let mut store = RecordStore::new();
    insert_todo(&mut store, "old", "2026-06-08", Some("pending"), None);

    assert_eq!(store.rollover_overdue_todos_at("2026-06-09", "2026-06-09T07:00:00Z"), 1);
    assert_eq!(store.rollover_overdue_todos_at("2026-06-09", "2026-06-09T08:00:00Z"), 0);
    assert_eq!(store.rollover_overdue_todos_at("2026-06-10", "2026-06-10T07:00:00Z"), 1);

    let rolled = stored(&store, "old");
    assert_eq!(rolled.date, "2026-06-10");
    assert_eq!(rolled.rolled_over_from_date.as_deref(), Some("2026-06-08"));
    assert_eq!(rolled.updated_at, "2026-06-10T07:00:00Z");
}

#[test]
fn rollover_todos_returns_the_visible_list() {
    let mut store = RecordStore::new();
    insert_todo(&mut store, "a", "2026-06-01", Some("pending"), None);
    insert_todo(&mut store, "b", "2026-06-01", Some("pending"), None);
    store.soft_delete_record("b");

    let visible = store.rollover_todos("2026-06-02");

    assert_eq!(visible.len(), 1);
    assert_eq!(visible[0].id, "a");
    assert_eq!(visible[0].date, "2026-06-02");
}

#[test]
fn normalize_repairs_unknown_statuses_and_counts_them() {
    let mut store = RecordStore::new();
    insert_todo(&mut store, "weird", "2026-06-01", Some("later"), Some("2026-06-01T00:00:00Z"));
    insert_todo(&mut store, "fine", "2026-06-01", Some("done"), None);
    let mut note = legacy_todo("note", "2026-06-01", None, None);
    note.record_type = "note".to_string();
    store.add_record(note).expect("add note");

    assert_eq!(store.normalize_todo_statuses(), 1);
    assert_eq!(stored(&store, "weird").status.as_deref(), Some("done"));
    assert_eq!(stored(&store, "note").status, None);
    assert_eq!(store.normalize_todo_statuses(), 0);
}

#[test]
fn update_record_keeps_id_and_creation_time() {
    let mut store = RecordStore::new();
    insert_todo(&mut store, "e", "2026-06-01", Some("pending"), None);
    store.mark_records_synced(&vec!["e".to_string()]);
    let mut edit = legacy_todo("e", "2026-06-05", Some("done"), None);
    edit.content = "edited".to_string();
    edit.created_at = "1999-01-01T00:00:00Z".to_string();
    edit.updated_at = "2026-06-05T00:00:00Z".to_string();

    store.update_record(&edit);

    let after = stored(&store, "e");
    assert_eq!(after.content, "edited");
    assert_eq!(after.date, "2026-06-05");
    assert_eq!(after.created_at, "2026-06-10T00:00:00Z");
    assert_eq!(after.updated_at, "2026-06-05T00:00:00Z");
    assert_eq!(sync_status_of(&store, "e"), SyncStatus::Dirty);
}

#[test]
fn migrate_records_ignores_stored_ids_and_repairs_statuses() {
    let mut store = RecordStore::new();
    insert_todo(&mut store, "kept", "2026-06-01", Some("pending"), None);
    store.mark_records_synced(&vec!["kept".to_string()]);
    let mut clash = legacy_todo("kept", "2026-06-09", Some("done"), None);
    clash.content = "imported".to_string();
    let fresh = legacy_todo("fresh", "2026-06-02", None, None);
    let batch = vec![clash, fresh];

    store.migrate_records(&batch);
    let once = store.rows();
    store.migrate_records(&batch);

    assert_eq!(store.rows(), once);
    assert_eq!(stored(&store, "kept").content, "legacy todo");
    assert_eq!(sync_status_of(&store, "kept"), SyncStatus::Synced);
    assert_eq!(stored(&store, "fresh").status.as_deref(), Some("pending"));
    assert_eq!(sync_status_of(&store, "fresh"), SyncStatus::Dirty);
}

#[test]
fn soft_delete_counts_changed_rows() {
    let mut store = RecordStore::new();
    insert_todo(&mut store, "a", "2026-06-01", Some("pending"), None);
    assert_eq!(store.soft_delete_record_at("a", "2026-06-03T00:00:00Z"), 1);
    assert_eq!(store.soft_delete_record_at("missing", "2026-06-03T00:00:00Z"), 0);
    let tomb = stored(&store, "a");
    assert_eq!(tomb.deleted_at.as_deref(), Some("2026-06-03T00:00:00Z"));
    assert_eq!(tomb.updated_at, "2026-06-03T00:00:00Z");
    assert_eq!(store.read_sync_records().len(), 1);
}

#[test]
fn todo_status_reads_only_todos_with_a_status() {
    let mut store = RecordStore::new();
    insert_todo(&mut store, "t", "2026-06-01", Some("done"), None);
    insert_todo(&mut store, "n", "2026-06-01", None, None);
    let mut note = legacy_todo("note", "2026-06-01", Some("done"), None);
    note.record_type = "note".to_string();
    store.add_record(note).expect("add note");

    assert_eq!(store.todo_status("t").as_deref(), Some("done"));
    assert_eq!(store.todo_status("n"), None);
    assert_eq!(store.todo_status("note"), None);
    assert_eq!(store.todo_status("missing"), None);
}

#[test]
fn set_todo_status_at_stamps_the_record() {
    let mut store = RecordStore::new();
    insert_todo(&mut store, "t", "2026-06-01", Some("pending"), None);
    store.set_todo_status_at(
        "t",
        Some("done".to_string()),
        Some("2026-06-02T00:00:00Z".to_string()),
        "2026-06-02T00:00:01Z",
    );
    let after = stored(&store, "t");
    assert_eq!(after.status.as_deref(), Some("done"));
    assert_eq!(after.completed_at.as_deref(), Some("2026-06-02T00:00:00Z"));
    assert_eq!(after.updated_at, "2026-06-02T00:00:01Z");
}

#[test]
fn migrated_columns_need_no_further_change() {
    let mut columns: Vec<String> = vec!["id".to_string(), "deleted_at".to_string()];
    for change in ensure_sync_columns(&columns) {
        columns.push(change.column_name());
    }
    assert!(ensure_sync_columns(&columns).is_empty());
}

#[test]
fn added_record_is_read_back() {
    let mut store = RecordStore::new();
    let rec = legacy_todo("fresh", "2026-06-11", Some("pending"), None);
    store.add_record(rec.clone()).expect("add");

    assert_eq!(store.read_sync_records().last(), Some(&rec));
    assert_eq!(store.read_visible_records(), vec![rec.clone()]);
    assert_eq!(store.read_dirty_sync_records(), vec![rec]);
}

fn note(id: &str) -> RecordItem {
    RecordItem {
        id: id.to_string(),
        record_type: "note".to_string(),
        content: "a note".to_string(),
        date: "2026-06-11".to_string(),
        status: None,
        created_at: "2026-06-10T00:00:00Z".to_string(),
        updated_at: "2026-06-10T00:00:00Z".to_string(),
        completed_at: None,
        rolled_over_from_date: None,
        deleted_at: None,
    }
}

#[test]
fn toggling_a_note_changes_nothing() {
    let mut store = RecordStore::new();
    store.add_record(note("n")).expect("insert note");
    store.mark_records_synced(&vec!["n".to_string()]);
    let before = store.rows();

    store.toggle_todo("n");
    assert_eq!(store.rows(), before);

    store.toggle_todo_at("n", "2026-06-11T08:00:00+00:00", "2026-06-11T08:00:01+00:00");
    assert_eq!(store.rows(), before);
    assert_eq!(stored(&store, "n").status, None);
    assert_eq!(sync_status_of(&store, "n"), SyncStatus::Synced);
}

#[test]
fn toggle_at_stamps_the_given_times() {
    let mut store = RecordStore::new();
    insert_todo(&mut store, "t", "2026-06-11", Some("pending"), None);
    store.mark_records_synced(&vec!["t".to_string()]);

    store.toggle_todo_at("t", "2026-06-11T08:00:00+00:00", "2026-06-11T08:00:01+00:00");
    let done = stored(&store, "t");
    assert_eq!(done.status.as_deref(), Some("done"));
    assert_eq!(done.completed_at.as_deref(), Some("2026-06-11T08:00:00+00:00"));
    assert_eq!(done.updated_at, "2026-06-11T08:00:01+00:00");
    assert_eq!(done.content, "legacy todo");
    assert_eq!(sync_status_of(&store, "t"), SyncStatus::Dirty);

    store.toggle_todo_at("t", "2026-06-12T09:00:00+00:00", "2026-06-12T09:00:01+00:00");
    let reopened = stored(&store, "t");
    assert_eq!(reopened.status.as_deref(), Some("pending"));
    assert_eq!(reopened.completed_at, None);
    assert_eq!(reopened.updated_at, "2026-06-12T09:00:01+00:00");
}

#[test]
fn toggling_a_todo_without_status_completes_it() {
    let mut store = RecordStore::new();
    insert_todo(&mut store, "t", "2026-06-11", None, None);

    store.toggle_todo_at("t", "2026-06-11T08:00:00+00:00", "2026-06-11T08:00:01+00:00");
    let done = stored(&store, "t");
    assert_eq!(done.status.as_deref(), Some("done"));
    assert_eq!(done.completed_at.as_deref(), Some("2026-06-11T08:00:00+00:00"));
}

#[test]
fn next_status_at_uses_the_given_completion_time() {
    let (status, completed_at) = next_todo_status_at(Some("pending"), "2026-06-11T08:00:00+00:00");
    assert_eq!(status.as_deref(), Some("done"));
    assert_eq!(completed_at.as_deref(), Some("2026-06-11T08:00:00+00:00"));

    let (status, completed_at) = next_todo_status_at(Some("done"), "2026-06-11T08:00:00+00:00");
    assert_eq!(status.as_deref(), Some("pending"));
    assert_eq!(completed_at, None);

    let (status, completed_at) = next_todo_status_at(Some("Done"), "x");
    assert_eq!(status.as_deref(), Some("done"));
    assert_eq!(completed_at.as_deref(), Some("x"));
}

#[test]
fn visible_records_are_the_undeleted_sync_records() {
    let mut store = RecordStore::new();
    insert_todo(&mut store, "a", "2026-06-11", Some("pending"), None);
    store.add_record(note("b")).expect("insert note");
    insert_todo(&mut store, "c", "2026-06-12", Some("done"), Some("2026-06-12T10:00:00Z"));
    store.soft_delete_record_at("b", "2026-06-12T11:00:00+00:00");

    let undeleted: Vec<RecordItem> = store
        .read_sync_records()
        .into_iter()
        .filter(|r| r.deleted_at.is_none())
        .collect();
    assert_eq!(store.read_visible_records(), undeleted);
    assert_eq!(
        store.read_visible_records().iter().map(|r| r.id.as_str()).collect::<Vec<_>>(),
        vec!["a", "c"]
    );
    assert_eq!(store.read_sync_records().len(), 3);
}
