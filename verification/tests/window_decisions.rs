use frostnote::schema::{normalize_sync_status, ensure_sync_columns, SchemaChange};
use frostnote::record::SyncStatus;
use frostnote::text::{text_eq, text_lt};
use frostnote::window::{
    centered_window_position, compact_snap_position, compact_window_position, menu_action,
    restore_window_steps, should_hide_on_shortcut, should_restore_on_focus,
    tray_event_restores, watch_foreground_minimized_step, MenuAction, TrayButton,
    TrayButtonState, TrayEvent, WatchState, WindowRestoreStep,
};

#[test]
fn restore_window_steps_restore_before_show_and_focus() {
    assert_eq!(
        restore_window_steps(),
        [
            WindowRestoreStep::NativeRestore,
            WindowRestoreStep::Show,
            WindowRestoreStep::Focus,
        ]
    );
}

#[test]
fn shortcut_hides_only_a_visible_unminimized_window() {
    assert!(should_hide_on_shortcut(Some(true), Some(false)));
    assert!(should_hide_on_shortcut(Some(true), None));
    assert!(!should_hide_on_shortcut(Some(true), Some(true)));
    assert!(!should_hide_on_shortcut(Some(false), Some(false)));
    assert!(!should_hide_on_shortcut(None, Some(false)));
}

#[test]
fn focus_restores_only_a_minimized_window() {
    assert!(should_restore_on_focus(true, Some(true)));
    assert!(!should_restore_on_focus(true, Some(false)));
    assert!(!should_restore_on_focus(true, None));
    assert!(!should_restore_on_focus(false, Some(true)));
}

#[test]
fn watcher_restores_after_a_second_in_the_foreground() {
    let idle = WatchState { restore_guard: false, minimized_since_ms: None };
    let first = watch_foreground_minimized_step(idle, Some(true), Some(true), 5_000);
    assert!(!first.restore);
    assert_eq!(first.state.minimized_since_ms, Some(5_000));

    let early = watch_foreground_minimized_step(first.state, Some(true), Some(true), 5_999);
    assert!(!early.restore);
    assert_eq!(early.state.minimized_since_ms, Some(5_000));

    let late = watch_foreground_minimized_step(early.state, Some(true), Some(true), 6_000);
    assert!(late.restore);
    assert_eq!(late.state, idle);
}

#[test]
fn watcher_resets_when_the_window_leaves_the_foreground() {
    let since = WatchState { restore_guard: false, minimized_since_ms: Some(1_000) };
    let step = watch_foreground_minimized_step(since, Some(true), Some(false), 9_000);
    assert!(!step.restore);
    assert_eq!(step.state.minimized_since_ms, None);

    let unknown = watch_foreground_minimized_step(since, None, Some(true), 9_000);
    assert!(!unknown.restore);
    assert_eq!(unknown.state.minimized_since_ms, None);
}

#[test]
fn watcher_leaves_a_deliberately_minimized_window_alone() {
    let guarded = WatchState { restore_guard: true, minimized_since_ms: None };
    let step = watch_foreground_minimized_step(guarded, Some(true), Some(true), 100_000);
    assert!(!step.restore);
    assert!(step.state.restore_guard);

    let away = watch_foreground_minimized_step(step.state, Some(true), Some(false), 100_250);
    assert!(!away.restore);
    assert!(!away.state.restore_guard);

    let shown = watch_foreground_minimized_step(guarded, Some(false), Some(true), 100_500);
    assert!(!shown.restore);
    assert!(!shown.state.restore_guard);
}

#[test]
fn watcher_treats_a_clock_going_back_as_no_time_passed() {
    let since = WatchState { restore_guard: false, minimized_since_ms: Some(10_000) };
    let step = watch_foreground_minimized_step(since, Some(true), Some(true), 2_000);
    assert!(!step.restore);
    assert_eq!(step.state.minimized_since_ms, Some(10_000));
}

#[test]
fn compact_window_snaps_to_the_top() {
    assert_eq!(compact_snap_position(true, 0, 300, 40), Some((300, 8)));
    assert_eq!(compact_snap_position(true, 0, -20, 40), Some((0, 8)));
    assert_eq!(compact_snap_position(true, -100, 50, 10), Some((50, 0)));
    assert_eq!(compact_snap_position(true, 0, 300, 8), None);
    assert_eq!(compact_snap_position(false, 0, 300, 40), None);
}

#[test]
fn compact_window_goes_to_the_top_right() {
    assert_eq!(compact_window_position(0, 0, 1920, 380), (1528, 8));
    assert_eq!(compact_window_position(1920, 30, 1280, 380), (2808, 38));
    assert_eq!(compact_window_position(0, 0, 100, 380), (0, 8));
    assert_eq!(compact_window_position(i32::MAX, 0, u32::MAX, 0), (i32::MAX, 8));
}

#[test]
fn normal_window_is_centered() {
    assert_eq!(centered_window_position(0, 0, 1920, 1080), (470, 200));
    assert_eq!(centered_window_position(1920, 0, 1921, 1081), (2390, 200));
    assert_eq!(centered_window_position(0, 0, 800, 600), (0, 0));
    assert_eq!(centered_window_position(100, 100, 979, 679), (100, 100));
}

#[test]
fn tray_menu_items() {
    assert_eq!(menu_action("show"), Some(MenuAction::Show));
    assert_eq!(menu_action("quit"), Some(MenuAction::Quit));
    assert_eq!(menu_action("Show"), None);
    assert_eq!(menu_action(""), None);
}

#[test]
fn sync_status_text_round_trip() {
    assert_eq!(normalize_sync_status(Some(&SyncStatus::Dirty.as_text())), SyncStatus::Dirty);
    assert_eq!(normalize_sync_status(Some(&SyncStatus::Synced.as_text())), SyncStatus::Synced);
    assert_eq!(normalize_sync_status(Some("bogus")), SyncStatus::Dirty);
    assert_eq!(normalize_sync_status(None), SyncStatus::Dirty);
}

#[test]
fn schema_changes_for_each_table_shape() {
    let with = |names: &[&str]| names.iter().map(|n| n.to_string()).collect::<Vec<String>>();
    assert_eq!(
        ensure_sync_columns(&with(&["id"])),
        vec![SchemaChange::AddDeletedAt, SchemaChange::AddSyncStatus]
    );
    assert_eq!(ensure_sync_columns(&with(&["id", "deleted_at"])), vec![SchemaChange::AddSyncStatus]);
    assert_eq!(ensure_sync_columns(&with(&["sync_status", "id"])), vec![SchemaChange::AddDeletedAt]);
    assert!(ensure_sync_columns(&with(&["deleted_at", "sync_status"])).is_empty());
    assert_eq!(SchemaChange::AddDeletedAt.column_name(), "deleted_at");
    assert_eq!(SchemaChange::AddSyncStatus.column_name(), "sync_status");
}

#[test]
fn text_order_is_code_point_order() {
    assert!(text_lt("2026-06-10", "2026-06-11"));
    assert!(!text_lt("2026-06-11", "2026-06-11"));
    assert!(text_lt("2026-06", "2026-06-01"));
    assert!(!text_lt("2026-06-01", "2026-06"));
    assert!(text_lt("", "a"));
    assert!(text_lt("Z", "a"));
    assert!(text_lt("é", "中"));
    assert_eq!(text_lt("2026-06-12T00:00:00Z", "2026-06-10T00:00:00Z"), "2026-06-12T00:00:00Z" < "2026-06-10T00:00:00Z");
    assert!(text_eq("中文", "中文"));
    assert!(!text_eq("a", "ab"));
}

#[test]
fn only_a_left_click_release_on_the_tray_restores() {
    assert!(tray_event_restores(TrayEvent::Click {
        button: TrayButton::Left,
        state: TrayButtonState::Up,
    }));
    assert!(!tray_event_restores(TrayEvent::Click {
        button: TrayButton::Left,
        state: TrayButtonState::Down,
    }));
    assert!(!tray_event_restores(TrayEvent::Click {
        button: TrayButton::Right,
        state: TrayButtonState::Up,
    }));
    assert!(!tray_event_restores(TrayEvent::Click {
        button: TrayButton::Middle,
        state: TrayButtonState::Up,
    }));
    assert!(!tray_event_restores(TrayEvent::Other));
}

#[test]
fn watcher_run_restores_at_the_first_look_a_second_after_the_run_began() {
    let mut state = WatchState { restore_guard: false, minimized_since_ms: None };
    let mut restored_at = Vec::new();
    // Looks every 250 ms; the window is minimised in the foreground from 500 ms on.
    for k in 0..12u64 {
        let now = k * 250;
        let minimized = now >= 500;
        let step = watch_foreground_minimized_step(state, Some(minimized), Some(true), now);
        if step.restore {
            restored_at.push(now);
        }
        state = step.state;
    }
    // The run began at 500 ms: restored at 1500 ms, then the wait starts over.
    assert_eq!(restored_at, vec![1_500, 2_750]);
}
