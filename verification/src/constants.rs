//! Names that the stores, the listeners and the shell around them share.

use vstd::prelude::*;

verus! {

/// The argument with which the operating system starts the application at
/// login.
pub const AUTO_START_FLAG: &'static str = "--auto";

/// The argument that is followed by the identifier of a launcher to launch.
pub const LAUNCH_SPECIFIED_LAUNCHER_KEY: &'static str = "launch";

pub const APPLICATION_NAME: &'static str = "一键启动";

pub const MAIN_WINDOW_LABEL: &'static str = "main";

/// Settings key of the window theme.
pub const THEME_KEY: &'static str = "theme";

/// Settings key of what closing the main panel does.
pub const CLOSE_MAIN_PANEL_KEY: &'static str = "close_main_panel";

/// Settings key of the launchers to launch after an automatic start: a JSON
/// array of launcher identifiers.
pub const AUTO_START_LAUNCHER_IDS_KEY: &'static str = "auto_start_launcher_ids";

/// Settings key of whether the window stays hidden after an automatic start.
pub const HIDE_AFTER_AUTO_START_KEY: &'static str = "hide_after_auto_start";

/// Settings key of whether the process ends once a launcher was launched.
pub const LAUNCH_THEN_EXIT_KEY: &'static str = "launch_then_exit";

/// The value of `CLOSE_MAIN_PANEL_KEY` that makes closing the main panel end
/// the process.
pub const CLOSE_MAIN_PANEL_EXIT: &'static str = "m2";

pub const WINDOW_MIN_WIDTH: u32 = 800;

pub const WINDOW_MIN_HEIGHT: u32 = 600;

/// How long after a reset of the window size further scale changes are
/// ignored, in nanoseconds: half a second.
pub const SCALE_RESET_PAUSE_NANOS: u64 = 500_000_000;

/// Identifier of the tray menu entry that ends the process.
pub const QUIT_MENU_ID: &'static str = "quit";

/// What the identifier of a tray menu entry that launches a launcher
/// begins with; the launcher's identifier follows.
pub const LAUNCH_MENU_PREFIX: &'static str = "launch_";

} // verus!
