use one_click_launch::action::Action;
use one_click_launch::api::launcher_api::{add_resource, create_named_launcher};
use one_click_launch::api::setting_api::save_setting;
use one_click_launch::api::window_api::{
    build_tray_menu, change_windows_theme, handle_window_event, on_menu_event,
    on_tray_icon_event, refresh_tray, ScaleFactorChangedState, TrayIconEvent, TrayMenuItem,
    WindowEvent, WindowTheme,
};
use one_click_launch::db::launcher::Launcher;
use one_click_launch::events::types::{DragDropResourcePayload, LauncherLaunchedPayload};
use one_click_launch::events::EventMessage;
use one_click_launch::DatabaseManager;

fn entry(id: &str, title: &str) -> TrayMenuItem {
    TrayMenuItem::Entry { id: id.to_string(), title: title.to_string() }
}

fn fresh() -> ScaleFactorChangedState {
    ScaleFactorChangedState { last_reset: None }
}

const RESIZE: Action = Action::ResizeWindow { width: 800, height: 600 };

#[test]
fn themes() {
    assert_eq!(change_windows_theme("dark"), WindowTheme::Dark);
    assert_eq!(change_windows_theme("light"), WindowTheme::Light);
    assert_eq!(change_windows_theme(""), WindowTheme::System);
    assert_eq!(change_windows_theme("DARK"), WindowTheme::System);
}

#[test]
fn tray_menu_of_empty_store_has_quit_only() {
    assert_eq!(refresh_tray(DatabaseManager::new().tables()), vec![entry("quit", "退出")]);
}

#[test]
fn tray_menu_lists_launchers_in_listing_order() {
    let mut db = DatabaseManager::new();
    create_named_launcher(&mut db, "first").unwrap();
    create_named_launcher(&mut db, "二").unwrap();
    assert_eq!(
        refresh_tray(db.tables()),
        vec![
            entry("launch_1", "启动: first"),
            entry("launch_2", "启动: 二"),
            TrayMenuItem::Separator,
            entry("quit", "退出"),
        ]
    );
}

#[test]
fn tray_menu_writes_ids_in_decimal() {
    let rows = vec![
        Launcher { id: -12, name: "n".to_string(), sort: 0 },
        Launcher { id: i64::MAX, name: String::new(), sort: 0 },
        Launcher { id: i64::MIN, name: "m".to_string(), sort: 0 },
        Launcher { id: 0, name: "z".to_string(), sort: 0 },
    ];
    assert_eq!(
        build_tray_menu(&rows),
        vec![
            entry("launch_-12", "启动: n"),
            entry("launch_9223372036854775807", "启动: "),
            entry("launch_-9223372036854775808", "启动: m"),
            entry("launch_0", "启动: z"),
            TrayMenuItem::Separator,
            entry("quit", "退出"),
        ]
    );
}

#[test]
fn close_hides_unless_setting_says_exit() {
    let mut db = DatabaseManager::new();
    let mut state = fresh();
    assert_eq!(
        handle_window_event(db.tables(), &mut state, &WindowEvent::CloseRequested),
        vec![Action::HideWindow]
    );
    save_setting(&mut db, "close_main_panel".to_string(), "m2".to_string()).unwrap();
    assert_eq!(
        handle_window_event(db.tables(), &mut state, &WindowEvent::CloseRequested),
        vec![Action::HideWindow, Action::Exit]
    );
    for other in ["m1", "M2", " m2", "", "true"] {
        save_setting(&mut db, "close_main_panel".to_string(), other.to_string()).unwrap();
        assert_eq!(
            handle_window_event(db.tables(), &mut state, &WindowEvent::CloseRequested),
            vec![Action::HideWindow]
        );
    }
    assert_eq!(state, fresh());
}

#[test]
fn scale_change_resets_size_once_per_pause() {
    let db = DatabaseManager::new();
    let mut state = fresh();
    let odd = Some((1000u32, 750u32));
    let event = |now: u64| WindowEvent::ScaleFactorChanged { now, inner_size: odd };
    assert_eq!(handle_window_event(db.tables(), &mut state, &event(1_000)), vec![RESIZE]);
    assert_eq!(state.last_reset, Some(1_000));
    assert_eq!(handle_window_event(db.tables(), &mut state, &event(500_000_000)), vec![]);
    assert_eq!(handle_window_event(db.tables(), &mut state, &event(501_000_999)), vec![]);
    assert_eq!(state.last_reset, Some(1_000));
    assert_eq!(handle_window_event(db.tables(), &mut state, &event(501_001_000)), vec![RESIZE]);
    assert_eq!(state.last_reset, Some(501_001_000));
    assert_eq!(handle_window_event(db.tables(), &mut state, &event(5)), vec![]);
    assert_eq!(state.last_reset, Some(501_001_000));
}

#[test]
fn scale_change_leaves_regular_or_unknown_size_alone() {
    let db = DatabaseManager::new();
    let mut state = fresh();
    let regular = WindowEvent::ScaleFactorChanged { now: 10, inner_size: Some((800, 600)) };
    assert_eq!(handle_window_event(db.tables(), &mut state, &regular), vec![]);
    let unknown = WindowEvent::ScaleFactorChanged { now: 10, inner_size: None };
    assert_eq!(handle_window_event(db.tables(), &mut state, &unknown), vec![]);
    assert_eq!(state, fresh());
    let wide = WindowEvent::ScaleFactorChanged { now: 10, inner_size: Some((801, 600)) };
    assert_eq!(handle_window_event(db.tables(), &mut state, &wide), vec![RESIZE]);
    let tall = WindowEvent::ScaleFactorChanged { now: u64::MAX, inner_size: Some((800, 1)) };
    assert_eq!(handle_window_event(db.tables(), &mut state, &tall), vec![RESIZE]);
    assert_eq!(state.last_reset, Some(u64::MAX));
}

#[test]
fn drop_of_paths_focuses_and_publishes() {
    let db = DatabaseManager::new();
    let mut state = fresh();
    let paths = vec!["C:\\a.txt".to_string(), "D:\\b".to_string()];
    let event = WindowEvent::DragDrop { paths: paths.clone() };
    assert_eq!(
        handle_window_event(db.tables(), &mut state, &event),
        vec![
            Action::FocusWindow,
            Action::Publish(EventMessage::DragDropResource(DragDropResourcePayload { paths })),
        ]
    );
    let empty = WindowEvent::DragDrop { paths: vec![] };
    assert_eq!(handle_window_event(db.tables(), &mut state, &empty), vec![]);
    assert_eq!(handle_window_event(db.tables(), &mut state, &WindowEvent::Other), vec![]);
}

#[test]
fn tray_click_brings_the_window_back() {
    assert_eq!(
        on_tray_icon_event(TrayIconEvent::LeftClickReleased),
        vec![Action::UnminimizeWindow, Action::ShowWindow, Action::FocusWindow]
    );
    assert_eq!(on_tray_icon_event(TrayIconEvent::Other), vec![]);
}

#[test]
fn menu_click_quits_or_launches() {
    let mut db = DatabaseManager::new();
    let (l, _) = create_named_launcher(&mut db, "l").unwrap();
    add_resource(&mut db, l, Some("r".to_string()), "C:\\r").unwrap();
    assert_eq!(on_menu_event(db.tables(), "quit"), vec![Action::Exit]);
    assert_eq!(
        on_menu_event(db.tables(), "launch_1"),
        vec![
            Action::OpenResource { name: "r".to_string(), path: "C:\\r".to_string() },
            Action::Publish(EventMessage::LauncherLaunched(LauncherLaunchedPayload {
                launcher_ids: vec![1]
            })),
        ]
    );
    assert_eq!(on_menu_event(db.tables(), "launch_"), vec![]);
    assert_eq!(on_menu_event(db.tables(), "launch_x"), vec![]);
    assert_eq!(on_menu_event(db.tables(), "launch"), vec![]);
    assert_eq!(on_menu_event(db.tables(), "Quit"), vec![]);
    assert_eq!(on_menu_event(db.tables(), ""), vec![]);
}

#[test]
fn every_menu_entry_launches_its_launcher() {
    let mut db = DatabaseManager::new();
    for name in ["a", "b", "c"] {
        create_named_launcher(&mut db, name).unwrap();
    }
    let items = refresh_tray(db.tables());
    let mut launched = Vec::new();
    for item in items.iter() {
        if let TrayMenuItem::Entry { id, .. } = item {
            for action in on_menu_event(db.tables(), id) {
                if let Action::Publish(EventMessage::LauncherLaunched(payload)) = action {
                    launched.push(payload.launcher_ids);
                }
            }
        }
    }
    assert_eq!(launched, vec![vec![1], vec![2], vec![3]]);
}
