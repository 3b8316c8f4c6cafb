//! Window and tray decisions: the tray menu, the theme, and what window
//! events lead to.

use vstd::prelude::*;
use vstd::string::*;
use crate::action::{Action, ActionView, action_views, push_action};
use crate::api::launcher_api::{launch_actions, launch_in};
use crate::constants::{
    CLOSE_MAIN_PANEL_EXIT, CLOSE_MAIN_PANEL_KEY, LAUNCH_MENU_PREFIX, QUIT_MENU_ID,
    SCALE_RESET_PAUSE_NANOS, WINDOW_MIN_HEIGHT, WINDOW_MIN_WIDTH,
};
use crate::db::{Tables, TablesView};
use crate::db::launcher::{Launcher, LauncherView, launcher_views, listing_of, query};
use crate::db::settings::{self, lemma_saved_rows, stored};
use crate::events::{EventMessage, EventMessageView};
use crate::events::types::{DragDropResourcePayload, clone_strings, texts};
use crate::text::{
    decimal_text, has_prefix, i64_to_string, lemma_nat_text, lemma_parse_decimal, parse_i64,
    spec_parse_i64, str_equal,
};

verus! {

/// The theme of the main window.
#[derive(Clone, Copy, Debug, PartialEq, Eq, Structural)]
pub enum WindowTheme {
    Dark,
    Light,
    /// Whatever the system uses.
    System,
}

/// The theme that a theme setting names: `dark`, `light`, and the system's
/// theme for any other value.
pub open spec fn spec_theme(value: Seq<char>) -> WindowTheme {
    if value == "dark"@ {
        WindowTheme::Dark
    } else if value == "light"@ {
        WindowTheme::Light
    } else {
        WindowTheme::System
    }
}

/// The theme to give the main window for the theme setting `theme`.
pub fn change_windows_theme(theme: &str) -> (chosen: WindowTheme)
    ensures
        chosen == spec_theme(theme@),
{
    if str_equal(theme, "dark") {
        WindowTheme::Dark
    } else if str_equal(theme, "light") {
        WindowTheme::Light
    } else {
        WindowTheme::System
    }
}

/// One item of the tray menu.
#[derive(Clone, Debug, PartialEq, Eq)]
pub enum TrayMenuItem {
    /// An entry that can be clicked.
    Entry { id: String, title: String },
    /// A line between entries.
    Separator,
}

/// The mathematical value of a `TrayMenuItem`.
pub enum TrayMenuItemView {
    Entry { id: Seq<char>, title: Seq<char> },
    Separator,
}

impl View for TrayMenuItem {
    type V = TrayMenuItemView;

    open spec fn view(&self) -> TrayMenuItemView {
        match self {
            TrayMenuItem::Entry { id, title } => TrayMenuItemView::Entry { id: id@, title: title@ },
            TrayMenuItem::Separator => TrayMenuItemView::Separator,
        }
    }
}

/// The values of a run of menu items.
pub open spec fn menu_views(items: Seq<TrayMenuItem>) -> Seq<TrayMenuItemView> {
    items.map_values(|item: TrayMenuItem| item@)
}

/// The menu entry that launches `launcher`: its identifier is the launch
/// prefix and the launcher's identifier in base ten.
pub open spec fn launch_entry(launcher: LauncherView) -> TrayMenuItemView {
    TrayMenuItemView::Entry {
        id: LAUNCH_MENU_PREFIX@ + decimal_text(launcher.id as int),
        title: "启动: "@ + launcher.name,
    }
}

/// The menu entry that ends the process.
pub open spec fn quit_entry() -> TrayMenuItemView {
    TrayMenuItemView::Entry { id: QUIT_MENU_ID@, title: "退出"@ }
}

/// The tray menu for the launchers of `listing`: one entry for each, in
/// order; a separator if there is any; and the entry that quits.
pub open spec fn tray_menu(listing: Seq<LauncherView>) -> Seq<TrayMenuItemView> {
    listing.map_values(|launcher: LauncherView| launch_entry(launcher)) + (if listing.len() > 0 {
        seq![TrayMenuItemView::Separator]
    } else {
        Seq::<TrayMenuItemView>::empty()
    }) + seq![quit_entry()]
}

/// The tray menu for `listing`.
pub fn build_tray_menu(listing: &Vec<Launcher>) -> (items: Vec<TrayMenuItem>)
    ensures
        menu_views(items@) == tray_menu(launcher_views(listing@)),
{
    let ghost rows = launcher_views(listing@);
    let ghost entries = rows.map_values(|launcher: LauncherView| launch_entry(launcher));
    let n = listing.len();
    let mut items: Vec<TrayMenuItem> = Vec::new();
    let mut i: usize = 0;
    while i < n
        invariant
            n == listing.len(),
            i <= n,
            rows == launcher_views(listing@),
            entries == rows.map_values(|launcher: LauncherView| launch_entry(launcher)),
            menu_views(items@) == entries.take(i as int),
        decreases n - i,
    {
        let mut id = LAUNCH_MENU_PREFIX.to_owned();
        let number = i64_to_string(listing[i].id);
        id.append(number.as_str());
        let mut title = "启动: ".to_owned();
        title.append(listing[i].name.as_str());
        let ghost prior = menu_views(items@);
        let item = TrayMenuItem::Entry { id, title };
        proof {
            assert(item@ == launch_entry(rows[i as int]));
        }
        items.push(item);
        proof {
            assert(menu_views(items@) =~= prior.push(launch_entry(rows[i as int])));
            assert(entries.take(i + 1) =~= entries.take(i as int).push(entries[i as int]));
        }
        i = i + 1;
    }
    let ghost listed = menu_views(items@);
    proof {
        assert(entries.take(n as int) =~= entries);
    }
    if n > 0 {
        items.push(TrayMenuItem::Separator);
    }
    let ghost middle = menu_views(items@);
    proof {
        if n > 0 {
            assert(middle =~= listed + seq![TrayMenuItemView::Separator]);
        } else {
            assert(middle =~= listed + Seq::<TrayMenuItemView>::empty());
        }
    }
    let quit = TrayMenuItem::Entry { id: QUIT_MENU_ID.to_owned(), title: "退出".to_owned() };
    items.push(quit);
    proof {
        assert(menu_views(items@) =~= middle + seq![quit_entry()]);
    }
    items
}

/// The tray menu for the launchers in the store, in listing order.
pub fn refresh_tray(executor: &Tables) -> (items: Vec<TrayMenuItem>)
    requires
        executor.wf(),
    ensures
        menu_views(items@) == tray_menu(listing_of(executor@.launchers)),
{
    let listing = query(executor);
    build_tray_menu(&listing)
}

/// When the window size was last reset after a change of the scale
/// factor: nanoseconds on a clock that never runs backwards, or `None`
/// before the first reset. The shell keeps one such state behind a lock and
/// skips a notification when the lock is taken.
#[derive(Clone, Copy, Debug, PartialEq, Eq, Structural)]
pub struct ScaleFactorChangedState {
    pub last_reset: Option<u64>,
}

/// Something that happened to the main window.
#[derive(Clone, Debug, PartialEq, Eq)]
pub enum WindowEvent {
    /// The user asked to close the window.
    CloseRequested,
    /// The scale factor changed at `now`, nanoseconds on the clock of
    /// `ScaleFactorChangedState`; `inner_size` is the physical size of the
    /// window, where the shell could read it.
    ScaleFactorChanged { now: u64, inner_size: Option<(u32, u32)> },
    /// Paths were dropped on the window.
    DragDrop { paths: Vec<String> },
    /// Anything else.
    Other,
}

/// The mathematical value of a `WindowEvent`.
pub enum WindowEventView {
    CloseRequested,
    ScaleFactorChanged { now: u64, inner_size: Option<(u32, u32)> },
    DragDrop { paths: Seq<Seq<char>> },
    Other,
}

impl View for WindowEvent {
    type V = WindowEventView;

    open spec fn view(&self) -> WindowEventView {
        match self {
            WindowEvent::CloseRequested => WindowEventView::CloseRequested,
            WindowEvent::ScaleFactorChanged { now, inner_size } => WindowEventView::ScaleFactorChanged {
                now: *now,
                inner_size: *inner_size,
            },
            WindowEvent::DragDrop { paths } => WindowEventView::DragDrop { paths: texts(paths@) },
            WindowEvent::Other => WindowEventView::Other,
        }
    }
}

/// Whether closing the main panel ends the process: the setting holds
/// exactly the exit value.
pub open spec fn exits_on_close(tables: TablesView) -> bool {
    stored(tables.settings, CLOSE_MAIN_PANEL_KEY@) == Some(CLOSE_MAIN_PANEL_EXIT@)
}

/// A close request hides the window and, where the setting says so, ends
/// the process.
pub open spec fn close_actions(tables: TablesView) -> Seq<ActionView> {
    if exits_on_close(tables) {
        seq![ActionView::HideWindow, ActionView::Exit]
    } else {
        seq![ActionView::HideWindow]
    }
}

/// Whether a reset of the window size is due at `now`: there was none
/// before, or more than half a second, counted in whole milliseconds, has
/// passed since the last one.
pub open spec fn pause_over(state: ScaleFactorChangedState, now: u64) -> bool {
    match state.last_reset {
        None => true,
        Some(last) => now - last >= SCALE_RESET_PAUSE_NANOS + 1_000_000,
    }
}

/// Whether a change of the scale factor at `now` resets the window size:
/// the pause is over and the window is known not to have its regular size.
pub open spec fn resets_size(
    state: ScaleFactorChangedState,
    now: u64,
    inner_size: Option<(u32, u32)>,
) -> bool {
    pause_over(state, now) && match inner_size {
        Some((width, height)) => width != WINDOW_MIN_WIDTH || height != WINDOW_MIN_HEIGHT,
        None => false,
    }
}

/// What a window event leads to.
pub open spec fn window_actions(
    tables: TablesView,
    state: ScaleFactorChangedState,
    event: WindowEventView,
) -> Seq<ActionView> {
    match event {
        WindowEventView::CloseRequested => close_actions(tables),
        WindowEventView::ScaleFactorChanged { now, inner_size } => if resets_size(
            state,
            now,
            inner_size,
        ) {
            seq![ActionView::ResizeWindow { width: WINDOW_MIN_WIDTH, height: WINDOW_MIN_HEIGHT }]
        } else {
            Seq::empty()
        },
        WindowEventView::DragDrop { paths } => if paths.len() > 0 {
            seq![
                ActionView::FocusWindow,
                ActionView::Publish { event: EventMessageView::DragDropResource { paths: paths } },
            ]
        } else {
            Seq::empty()
        },
        WindowEventView::Other => Seq::empty(),
    }
}

/// The state after a window event: a reset of the window size is noted
/// with its time; nothing else changes the state.
pub open spec fn window_state_after(
    state: ScaleFactorChangedState,
    event: WindowEventView,
) -> ScaleFactorChangedState {
    match event {
        WindowEventView::ScaleFactorChanged { now, inner_size } => if resets_size(
            state,
            now,
            inner_size,
        ) {
            ScaleFactorChangedState { last_reset: Some(now) }
        } else {
            state
        },
        _ => state,
    }
}

/// Decides what a window event leads to and notes a reset of the window
/// size in `state`.
pub fn handle_window_event(
    executor: &Tables,
    state: &mut ScaleFactorChangedState,
    event: &WindowEvent,
) -> (actions: Vec<Action>)
    requires
        executor.wf(),
    ensures
        action_views(actions@) == window_actions(executor@, *old(state), event@),
        *final(state) == window_state_after(*old(state), event@),
{
    let mut actions: Vec<Action> = Vec::new();
    proof {
        assert(action_views(actions@) =~= Seq::<ActionView>::empty());
    }
    match event {
        WindowEvent::CloseRequested => {
            push_action(&mut actions, Action::HideWindow);
            let exit = match settings::read(executor, CLOSE_MAIN_PANEL_KEY) {
                Some(setting) => str_equal(CLOSE_MAIN_PANEL_EXIT, setting.value.as_str()),
                None => false,
            };
            if exit {
                push_action(&mut actions, Action::Exit);
                proof {
                    assert(action_views(actions@) =~= seq![
                        ActionView::HideWindow,
                        ActionView::Exit,
                    ]);
                }
            } else {
                proof {
                    assert(action_views(actions@) =~= seq![ActionView::HideWindow]);
                }
            }
        },
        WindowEvent::ScaleFactorChanged { now, inner_size } => {
            let due = match state.last_reset {
                None => true,
                Some(last) => *now >= last && *now - last >= SCALE_RESET_PAUSE_NANOS + 1_000_000,
            };
            if due {
                match inner_size {
                    Some((width, height)) => {
                        if *width != WINDOW_MIN_WIDTH || *height != WINDOW_MIN_HEIGHT {
                            push_action(
                                &mut actions,
                                Action::ResizeWindow {
                                    width: WINDOW_MIN_WIDTH,
                                    height: WINDOW_MIN_HEIGHT,
                                },
                            );
                            state.last_reset = Some(*now);
                            proof {
                                assert(action_views(actions@) =~= seq![
                                    ActionView::ResizeWindow {
                                        width: WINDOW_MIN_WIDTH,
                                        height: WINDOW_MIN_HEIGHT,
                                    },
                                ]);
                            }
                        }
                    },
                    None => {},
                }
            }
        },
        WindowEvent::DragDrop { paths } => {
            if paths.len() > 0 {
                push_action(&mut actions, Action::FocusWindow);
                let dropped = clone_strings(paths);
                push_action(
                    &mut actions,
                    Action::Publish(
                        EventMessage::DragDropResource(DragDropResourcePayload { paths: dropped }),
                    ),
                );
                proof {
                    assert(action_views(actions@) =~= seq![
                        ActionView::FocusWindow,
                        ActionView::Publish {
                            event: EventMessageView::DragDropResource { paths: texts(paths@) },
                        },
                    ]);
                }
            }
        },
        WindowEvent::Other => {},
    }
    actions
}

/// Once a value is saved for what closing the main panel does, a close
/// request ends the process if that value is the exit value, and only
/// hides the window for any other value.
pub proof fn lemma_close_after_save(tables: TablesView, value: Seq<char>)
    requires
        tables.valid(),
    ensures
        close_actions(tables.saved(CLOSE_MAIN_PANEL_KEY@, value)) == if value
            == CLOSE_MAIN_PANEL_EXIT@ {
            seq![ActionView::HideWindow, ActionView::Exit]
        } else {
            seq![ActionView::HideWindow]
        },
{
    lemma_saved_rows(tables.settings, CLOSE_MAIN_PANEL_KEY@, value);
}

/// A click on the tray icon.
#[derive(Clone, Copy, Debug, PartialEq, Eq, Structural)]
pub enum TrayIconEvent {
    /// The left button was released over the icon.
    LeftClickReleased,
    /// Any other event of the icon.
    Other,
}

/// A released left click on the tray icon brings the window back, shows it
/// and gives it the focus; nothing else does anything.
pub open spec fn tray_icon_actions(event: TrayIconEvent) -> Seq<ActionView> {
    match event {
        TrayIconEvent::LeftClickReleased => seq![
            ActionView::UnminimizeWindow,
            ActionView::ShowWindow,
            ActionView::FocusWindow,
        ],
        TrayIconEvent::Other => Seq::empty(),
    }
}

/// What an event of the tray icon leads to.
pub fn on_tray_icon_event(event: TrayIconEvent) -> (actions: Vec<Action>)
    ensures
        action_views(actions@) == tray_icon_actions(event),
{
    let mut actions: Vec<Action> = Vec::new();
    proof {
        assert(action_views(actions@) =~= Seq::<ActionView>::empty());
    }
    match event {
        TrayIconEvent::LeftClickReleased => {
            push_action(&mut actions, Action::UnminimizeWindow);
            push_action(&mut actions, Action::ShowWindow);
            push_action(&mut actions, Action::FocusWindow);
            proof {
                assert(action_views(actions@) =~= tray_icon_actions(event));
            }
        },
        TrayIconEvent::Other => {},
    }
    actions
}

/// The launcher that a tray menu entry launches: the integer behind the
/// launch prefix, if the identifier is made that way.
pub open spec fn menu_launcher(menu_id: Seq<char>) -> Option<i64> {
    if LAUNCH_MENU_PREFIX@.is_prefix_of(menu_id) {
        spec_parse_i64(menu_id.skip(LAUNCH_MENU_PREFIX@.len() as int))
    } else {
        None
    }
}

/// What a click on the tray menu entry `menu_id` leads to: the quit entry
/// ends the process, a launch entry launches its launcher, any other
/// entry does nothing.
pub open spec fn menu_actions(tables: TablesView, menu_id: Seq<char>) -> Seq<ActionView> {
    if menu_id == QUIT_MENU_ID@ {
        seq![ActionView::Exit]
    } else {
        match menu_launcher(menu_id) {
            Some(id) => launch_actions(tables, id),
            None => Seq::empty(),
        }
    }
}

/// What a click on the tray menu entry `menu_id` leads to.
pub fn on_menu_event(executor: &Tables, menu_id: &str) -> (actions: Vec<Action>)
    requires
        executor.wf(),
    ensures
        action_views(actions@) == menu_actions(executor@, menu_id@),
{
    if str_equal(menu_id, QUIT_MENU_ID) {
        let mut actions: Vec<Action> = Vec::new();
        push_action(&mut actions, Action::Exit);
        proof {
            assert(action_views(actions@) =~= seq![ActionView::Exit]);
        }
        return actions;
    }
    if has_prefix(menu_id, LAUNCH_MENU_PREFIX) {
        let skip = LAUNCH_MENU_PREFIX.unicode_len();
        let rest = menu_id.substring_char(skip, menu_id.unicode_len());
        proof {
            assert(menu_id@.subrange(skip as int, menu_id@.len() as int) =~= menu_id@.skip(
                skip as int,
            ));
        }
        match parse_i64(rest) {
            Some(id) => {
                return launch_in(executor, id);
            },
            None => {},
        }
    }
    let actions: Vec<Action> = Vec::new();
    proof {
        assert(action_views(actions@) =~= Seq::<ActionView>::empty());
    }
    actions
}

/// A click on the tray menu entry of a launcher launches that launcher:
/// the identifier written into the entry is read back as it was.
pub proof fn lemma_menu_entry_launches(tables: TablesView, launcher: LauncherView)
    ensures
        launch_entry(launcher) matches TrayMenuItemView::Entry { id, .. } && menu_actions(
            tables,
            id,
        ) == launch_actions(tables, launcher.id),
{
    reveal_strlit("launch_");
    reveal_strlit("quit");
    let number = decimal_text(launcher.id as int);
    let id = LAUNCH_MENU_PREFIX@ + number;
    if launcher.id < 0 {
        lemma_nat_text((-launcher.id) as nat);
    } else {
        lemma_nat_text(launcher.id as nat);
    }
    lemma_parse_decimal(launcher.id);
    assert(id.len() > 4);
    assert(id.subrange(0, LAUNCH_MENU_PREFIX@.len() as int) =~= LAUNCH_MENU_PREFIX@);
    assert(id.skip(LAUNCH_MENU_PREFIX@.len() as int) =~= number);
}

} // verus!
