//! The decisions behind the main window: how it is brought back, when the
//! shortcut hides it, when a window stuck minimized in the foreground is
//! restored, where the compact and the normal window are placed, and what
//! the tray icon and its menu items do.
use vstd::prelude::*;
use crate::text::text_eq;

verus! {

/// A step of bringing the main window back.
#[derive(Clone, Copy, Debug, PartialEq, Eq, Structural)]
pub enum WindowRestoreStep {
    /// Un-minimise through the operating system.
    NativeRestore,
    /// Show the window.
    Show,
    /// Give it the keyboard focus.
    Focus,
}

/// The steps of bringing the main window back, in order: the window is
/// restored before it is shown, and shown before it is focused.
pub fn restore_window_steps() -> (r: [WindowRestoreStep; 3])
    ensures
        r@ == seq![
            WindowRestoreStep::NativeRestore,
            WindowRestoreStep::Show,
            WindowRestoreStep::Focus,
        ],
{
    let r = [WindowRestoreStep::NativeRestore, WindowRestoreStep::Show, WindowRestoreStep::Focus];
    assert(r@ =~= seq![
        WindowRestoreStep::NativeRestore,
        WindowRestoreStep::Show,
        WindowRestoreStep::Focus,
    ]);
    r
}

/// Whether the global shortcut hides the window (otherwise it brings it
/// back): only when the window is known to be visible and not known to be
/// minimised. An unknown state (`None`, the query failed) counts as false.
pub fn should_hide_on_shortcut(is_visible: Option<bool>, is_minimized: Option<bool>) -> (b: bool)
    ensures
        b == (is_visible == Some(true) && is_minimized != Some(true)),
{
    let visible: bool = match is_visible {
        Some(v) => v,
        None => false,
    };
    let minimized: bool = match is_minimized {
        Some(m) => m,
        None => false,
    };
    visible && !minimized
}

/// Whether gaining focus brings the window back: when it is focused while
/// known to be minimised.
pub fn should_restore_on_focus(focused: bool, is_minimized: Option<bool>) -> (b: bool)
    ensures
        b == (focused && is_minimized == Some(true)),
{
    focused && match is_minimized {
        Some(m) => m,
        None => false,
    }
}

/// How long a window must stay minimised in the foreground before it is
/// restored, in milliseconds.
pub const RESTORE_AFTER_MS: u64 = 1000;

/// What the foreground watcher remembers between two looks at the window.
#[derive(Clone, Copy, Debug, PartialEq, Eq, Structural)]
pub struct WatchState {
    /// Set when the user minimised the window on purpose: while it holds, a
    /// minimised window is left alone.
    pub restore_guard: bool,
    /// Since when (milliseconds on a monotonic clock) the window has been
    /// minimised in the foreground, if it is.
    pub minimized_since_ms: Option<u64>,
}

/// The outcome of one look at the window.
#[derive(Clone, Copy, Debug, PartialEq, Eq, Structural)]
pub struct WatchStep {
    /// What to remember for the next look.
    pub state: WatchState,
    /// Whether to bring the window back now.
    pub restore: bool,
}

/// Milliseconds from `since` to `now`, zero when `now` is earlier.
pub open spec fn elapsed_ms(now: u64, since: u64) -> int {
    if now >= since {
        now - since
    } else {
        0
    }
}

/// One look at the window, minimised or not, in the foreground or not, at
/// time `now`:
/// - a guard whose window is no longer minimised is dropped;
/// - while the guard holds and the window is minimised, nothing is restored,
///   and the guard is dropped once the window leaves the foreground;
/// - otherwise a window minimised in the foreground is restored once it has
///   been so for `RESTORE_AFTER_MS`; any other window resets the timer.
pub open spec fn watch_next(s: WatchState, minimized: bool, foreground: bool, now: u64) -> WatchStep {
    let guard = s.restore_guard && minimized;
    if guard {
        WatchStep {
            state: WatchState { restore_guard: foreground, minimized_since_ms: None },
            restore: false,
        }
    } else if minimized && foreground {
        let since: u64 = match s.minimized_since_ms {
            Some(t) => t,
            None => now,
        };
        if elapsed_ms(now, since) >= RESTORE_AFTER_MS {
            WatchStep {
                state: WatchState { restore_guard: false, minimized_since_ms: None },
                restore: true,
            }
        } else {
            WatchStep {
                state: WatchState { restore_guard: false, minimized_since_ms: Some(since) },
                restore: false,
            }
        }
    } else {
        WatchStep {
            state: WatchState { restore_guard: false, minimized_since_ms: None },
            restore: false,
        }
    }
}

/// What the watcher sees at one look: the guard as it reads it, whether the
/// window is minimised and in the foreground, and the time.
pub struct Look {
    pub guard: bool,
    pub minimized: bool,
    pub foreground: bool,
    pub now: u64,
}

/// One look `l` by a watcher that remembers `since` from the looks before.
pub open spec fn look_step(since: Option<u64>, l: Look) -> WatchStep {
    watch_next(
        WatchState { restore_guard: l.guard, minimized_since_ms: since },
        l.minimized,
        l.foreground,
        l.now,
    )
}

/// What the watcher remembers before look `n` of a run that starts afresh.
pub open spec fn since_before(looks: Seq<Look>, n: int) -> Option<u64>
    decreases n,
{
    if n <= 0 {
        None
    } else {
        look_step(since_before(looks, n - 1), looks[n - 1]).state.minimized_since_ms
    }
}

/// Whether the watcher restores the window at look `t` of a run.
pub open spec fn restores_at(looks: Seq<Look>, t: int) -> bool {
    look_step(since_before(looks, t), looks[t]).restore
}

/// A look at a window minimised in the foreground, with the guard down.
pub open spec fn waiting(l: Look) -> bool {
    l.minimized && l.foreground && !l.guard
}

/// One look of the watcher that restores a window left minimised in the
/// foreground (see [`watch_next`]). An unknown window state (`None`, the
/// query failed) counts as false.
pub fn watch_foreground_minimized_step(
    state: WatchState,
    is_minimized: Option<bool>,
    is_foreground: Option<bool>,
    now_ms: u64,
) -> (r: WatchStep)
    ensures
        r == watch_next(state, is_minimized == Some(true), is_foreground == Some(true), now_ms),
{
    let minimized: bool = match is_minimized {
        Some(m) => m,
        None => false,
    };
    let foreground: bool = match is_foreground {
        Some(f) => f,
        None => false,
    };
    let mut guard: bool = state.restore_guard;
    if guard && !minimized {
        guard = false;
    }
    if guard && minimized {
        if !foreground {
            guard = false;
        }
        return WatchStep {
            state: WatchState { restore_guard: guard, minimized_since_ms: None },
            restore: false,
        };
    }
    if minimized && foreground {
        let since: u64 = match state.minimized_since_ms {
            Some(t) => t,
            None => now_ms,
        };
        if now_ms.saturating_sub(since) >= RESTORE_AFTER_MS {
            WatchStep {
                state: WatchState { restore_guard: guard, minimized_since_ms: None },
                restore: true,
            }
        } else {
            WatchStep {
                state: WatchState { restore_guard: guard, minimized_since_ms: Some(since) },
                restore: false,
            }
        }
    } else {
        WatchStep {
            state: WatchState { restore_guard: guard, minimized_since_ms: None },
            restore: false,
        }
    }
}

/// The larger of a coordinate and zero.
pub open spec fn at_least_zero(v: int) -> int {
    if v < 0 {
        0
    } else {
        v
    }
}

/// A value clamped to the range of `i32`.
pub open spec fn clamp_i32(v: int) -> int {
    if v < i32::MIN {
        i32::MIN as int
    } else if v > i32::MAX {
        i32::MAX as int
    } else {
        v
    }
}

/// Integer division by two, rounding towards zero.
pub open spec fn half_toward_zero(v: int) -> int {
    if v >= 0 {
        v / 2
    } else {
        -((-v) / 2)
    }
}

fn max_zero(v: i32) -> (r: i32)
    ensures
        r == at_least_zero(v as int),
{
    if v < 0 {
        0
    } else {
        v
    }
}

/// Where a moved window goes while the window is compact: pinned 8 pixels
/// below the top of its monitor, at its own horizontal place, neither
/// coordinate below zero. `None` when nothing has to move: the window is not
/// compact, or is already at that height.
pub fn compact_snap_position(compact: bool, monitor_y: i32, window_x: i32, window_y: i32) -> (r:
    Option<(i32, i32)>)
    requires
        monitor_y <= i32::MAX - 8,
    ensures
        r == (if compact && window_y as int != monitor_y + 8 {
            Some((at_least_zero(window_x as int) as i32, at_least_zero(monitor_y + 8) as i32))
        } else {
            None
        }),
{
    if !compact {
        return None;
    }
    let target_y: i32 = monitor_y + 8;
    if window_y != target_y {
        Some((max_zero(window_x), max_zero(target_y)))
    } else {
        None
    }
}

/// Where the compact window goes: at the top right of its monitor, 12
/// pixels from the right edge and 8 below the top, neither coordinate below
/// zero. The horizontal place saturates at the range of `i32`.
pub fn compact_window_position(
    monitor_x: i32,
    monitor_y: i32,
    monitor_width: u32,
    window_width: u32,
) -> (r: (i32, i32))
    requires
        monitor_y <= i32::MAX - 8,
    ensures
        r.0 == at_least_zero(clamp_i32(monitor_x + monitor_width - window_width - 12)),
        r.1 == at_least_zero(monitor_y + 8),
{
    let sum: i64 = monitor_x as i64 + monitor_width as i64 - window_width as i64 - 12;
    let x: i32 = if sum < i32::MIN as i64 {
        i32::MIN
    } else if sum > i32::MAX as i64 {
        i32::MAX
    } else {
        sum as i32
    };
    let y: i32 = monitor_y + 8;
    (max_zero(x), max_zero(y))
}

/// The width of the window in normal mode.
pub const NORMAL_WIDTH: i32 = 980;

/// The height of the window in normal mode.
pub const NORMAL_HEIGHT: i32 = 680;

/// Where the normal window goes: centred on its monitor (halves rounded
/// towards zero), neither coordinate below zero.
pub fn centered_window_position(
    monitor_x: i32,
    monitor_y: i32,
    monitor_width: u32,
    monitor_height: u32,
) -> (r: (i32, i32))
    requires
        monitor_width <= i32::MAX,
        monitor_height <= i32::MAX,
        i32::MIN <= monitor_x + half_toward_zero(monitor_width - NORMAL_WIDTH) <= i32::MAX,
        i32::MIN <= monitor_y + half_toward_zero(monitor_height - NORMAL_HEIGHT) <= i32::MAX,
    ensures
        r.0 == at_least_zero(monitor_x + half_toward_zero(monitor_width - NORMAL_WIDTH)),
        r.1 == at_least_zero(monitor_y + half_toward_zero(monitor_height - NORMAL_HEIGHT)),
{
    let x: i32 = monitor_x + half_i32(monitor_width as i32 - NORMAL_WIDTH);
    let y: i32 = monitor_y + half_i32(monitor_height as i32 - NORMAL_HEIGHT);
    (max_zero(x), max_zero(y))
}

fn half_i32(v: i32) -> (r: i32)
    ensures
        r == half_toward_zero(v as int),
{
    if v >= 0 {
        v / 2
    } else {
        let m: i64 = -(v as i64);
        let h: i64 = m / 2;
        -(h as i32)
    }
}

/// What a tray menu item does.
#[derive(Clone, Copy, Debug, PartialEq, Eq, Structural)]
pub enum MenuAction {
    /// Bring the main window back.
    Show,
    /// Quit the application.
    Quit,
}

/// The text of the menu item id `show`.
pub open spec fn show_id() -> Seq<char> {
    seq!['s', 'h', 'o', 'w']
}

/// The text of the menu item id `quit`.
pub open spec fn quit_id() -> Seq<char> {
    seq!['q', 'u', 'i', 't']
}

/// The action of the tray menu item with this id: `show` brings the window
/// back, `quit` quits; other ids do nothing.
pub fn menu_action(id: &str) -> (r: Option<MenuAction>)
    ensures
        r == (if id@ == show_id() {
            Some(MenuAction::Show)
        } else if id@ == quit_id() {
            Some(MenuAction::Quit)
        } else {
            None
        }),
{
    proof {
        reveal_strlit("show");
        reveal_strlit("quit");
    }
    assert("show"@ =~= show_id());
    assert("quit"@ =~= quit_id());
    if text_eq(id, "show") {
        Some(MenuAction::Show)
    } else if text_eq(id, "quit") {
        Some(MenuAction::Quit)
    } else {
        None
    }
}

/// A mouse button on the tray icon.
#[derive(Clone, Copy, Debug, PartialEq, Eq, Structural)]
pub enum TrayButton {
    Left,
    Right,
    Middle,
}

/// Whether a tray click is the press or the release of the button.
#[derive(Clone, Copy, Debug, PartialEq, Eq, Structural)]
pub enum TrayButtonState {
    Down,
    Up,
}

/// An event on the tray icon, as far as the decision below reads it.
#[derive(Clone, Copy, Debug, PartialEq, Eq, Structural)]
pub enum TrayEvent {
    /// A single click: which button, pressed or released.
    Click { button: TrayButton, state: TrayButtonState },
    /// Any other event: a double click, the pointer entering, moving over
    /// or leaving the icon.
    Other,
}

/// Whether a tray event brings the main window back: only the release of a
/// left click does.
pub fn tray_event_restores(event: TrayEvent) -> (r: bool)
    ensures
        r == (event == (TrayEvent::Click {
            button: TrayButton::Left,
            state: TrayButtonState::Up,
        })),
{
    match event {
        TrayEvent::Click { button: TrayButton::Left, state: TrayButtonState::Up } => true,
        _ => false,
    }
}

} // verus!
