use one_click_launch::action::Action;
use one_click_launch::api::launcher_api::{add_resource, create_named_launcher};
use one_click_launch::api::setting_api::save_setting;
use one_click_launch::api::window_api::{TrayMenuItem, WindowTheme};
use one_click_launch::error::OneClickLaunchError;
use one_click_launch::events::system_listeners::{
    auto_launch, change_theme, handle, has_auto_start_flag, hide_after_auto_start, hide_window,
    launch_auto_start_launchers, launch_specified_launcher, launch_then_exit,
    launcher_to_launch, on_application_startup_complete, on_launcher_launched, parse_id_list,
    publish, refresh_tray, register_system_listeners,
};
use one_click_launch::events::types::{
    ApplicationStartupComplete, ApplicationStartupCompletePayload, DragDropResource,
    DragDropResourcePayload, LauncherBasicInfoUpdated, LauncherBasicInfoUpdatedPayload,
    LauncherLaunched, LauncherLaunchedPayload, SettingUpdated, SettingUpdatedPayload,
};
use one_click_launch::events::{
    Event, EventKind, EventMessage, EventSystem, Subscription, SystemListener,
};
use one_click_launch::{extract_arg_value, on_second_instance, run, DatabaseManager};

fn args(list: &[&str]) -> Vec<String> {
    list.iter().map(|s| s.to_string()).collect()
}

fn startup(list: &[&str]) -> ApplicationStartupCompletePayload {
    ApplicationStartupCompletePayload { args: args(list) }
}

fn open(name: &str, path: &str) -> Action {
    Action::OpenResource { name: name.to_string(), path: path.to_string() }
}

fn launched(ids: Vec<i64>) -> Action {
    Action::Publish(EventMessage::LauncherLaunched(LauncherLaunchedPayload { launcher_ids: ids }))
}

fn entry(id: &str, title: &str) -> TrayMenuItem {
    TrayMenuItem::Entry { id: id.to_string(), title: title.to_string() }
}

fn quit_only() -> Action {
    Action::RefreshTray(vec![entry("quit", "退出")])
}

fn system_bus() -> EventSystem {
    let mut bus = EventSystem::new();
    register_system_listeners(&mut bus);
    bus
}

fn store_with_two_launchers() -> DatabaseManager {
    let mut db = DatabaseManager::new();
    let (a, _) = create_named_launcher(&mut db, "a").unwrap();
    let (b, _) = create_named_launcher(&mut db, "b").unwrap();
    add_resource(&mut db, a, Some("a1".to_string()), "C:\\a1").unwrap();
    add_resource(&mut db, b, Some("b1".to_string()), "https://b1").unwrap();
    add_resource(&mut db, a, Some("a2".to_string()), "C:\\a2").unwrap();
    db
}

fn two_launcher_menu() -> Action {
    Action::RefreshTray(vec![
        entry("launch_1", "启动: a"),
        entry("launch_2", "启动: b"),
        TrayMenuItem::Separator,
        entry("quit", "退出"),
    ])
}

#[test]
fn event_names() {
    assert_eq!(LauncherLaunched::name(), "launcher:launched");
    assert_eq!(LauncherBasicInfoUpdated::name(), "launcher:basic_info_updated");
    assert_eq!(SettingUpdated::name(), "setting:updated");
    assert_eq!(ApplicationStartupComplete::name(), "application:startup_complete");
    assert_eq!(DragDropResource::name(), "resource:drag_drop");
    assert_eq!(EventKind::SettingUpdated.name(), "setting:updated");
    let message = EventMessage::DragDropResource(DragDropResourcePayload { paths: vec![] });
    assert_eq!(message.kind(), EventKind::DragDropResource);
    assert_eq!(message.name(), "resource:drag_drop");
}

#[test]
fn extract_arg_value_takes_the_following_argument() {
    assert_eq!(extract_arg_value(&args(&["app", "launch", "7"]), "launch"), Some("7".to_string()));
    assert_eq!(extract_arg_value(&args(&["app", "launch"]), "launch"), None);
    assert_eq!(extract_arg_value(&args(&[]), "launch"), None);
    assert_eq!(extract_arg_value(&args(&["launch"]), "launch"), None);
    assert_eq!(
        extract_arg_value(&args(&["launch", "launch", "3"]), "launch"),
        Some("launch".to_string())
    );
    assert_eq!(
        extract_arg_value(&args(&["a", "launch", "1", "launch", "2"]), "launch"),
        Some("1".to_string())
    );
    assert_eq!(extract_arg_value(&args(&["a", "b"]), "launch"), None);
}

#[test]
fn launcher_to_launch_parses_the_id() {
    assert_eq!(launcher_to_launch(&args(&["app", "launch", "12"])), Some(12));
    assert_eq!(launcher_to_launch(&args(&["app", "launch", "-3"])), Some(-3));
    assert_eq!(launcher_to_launch(&args(&["app", "launch", "x"])), None);
    assert_eq!(launcher_to_launch(&args(&["app", "--auto"])), None);
    assert_eq!(launcher_to_launch(&args(&["app", "launch", " 1"])), None);
}

#[test]
fn auto_start_flag_is_found_anywhere() {
    assert!(has_auto_start_flag(&args(&["app", "--auto"])));
    assert!(has_auto_start_flag(&args(&["--auto", "x"])));
    assert!(!has_auto_start_flag(&args(&["app", "--Auto"])));
    assert!(!has_auto_start_flag(&args(&[])));
}

#[test]
fn parse_id_list_reads_json_arrays() {
    assert_eq!(parse_id_list("[1, 2, 3]").unwrap(), vec![1, 2, 3]);
    assert_eq!(parse_id_list("[]").unwrap(), Vec::<i64>::new());
    assert_eq!(parse_id_list(" [ -5 ] ").unwrap(), vec![-5]);
    assert_eq!(parse_id_list("not-json").unwrap_err(), OneClickLaunchError::SerializationError);
    assert_eq!(parse_id_list("[1.5]").unwrap_err(), OneClickLaunchError::SerializationError);
    assert_eq!(parse_id_list("{\"a\":1}").unwrap_err(), OneClickLaunchError::SerializationError);
    assert_eq!(parse_id_list("[1] x").unwrap_err(), OneClickLaunchError::SerializationError);
    assert_eq!(
        parse_id_list("[9223372036854775808]").unwrap_err(),
        OneClickLaunchError::SerializationError
    );
    assert_eq!(parse_id_list("").unwrap_err(), OneClickLaunchError::SerializationError);
}

#[test]
fn single_launch_hides_the_window() {
    let db = DatabaseManager::new();
    let bus = system_bus();
    let one = EventMessage::LauncherLaunched(LauncherLaunchedPayload { launcher_ids: vec![4] });
    assert_eq!(publish(&bus, &db, &one), vec![Action::HideWindow]);
}

#[test]
fn batch_launch_does_not_hide_the_window() {
    let db = DatabaseManager::new();
    let bus = system_bus();
    let two = EventMessage::LauncherLaunched(LauncherLaunchedPayload { launcher_ids: vec![4, 5] });
    assert_eq!(publish(&bus, &db, &two), vec![]);
    let none = EventMessage::LauncherLaunched(LauncherLaunchedPayload { launcher_ids: vec![] });
    assert_eq!(publish(&bus, &db, &none), vec![]);
    assert_eq!(hide_window(&LauncherLaunchedPayload { launcher_ids: vec![1, 1] }), vec![]);
}

#[test]
fn launch_then_exit_ends_the_process_after_hiding() {
    let mut db = DatabaseManager::new();
    save_setting(&mut db, "launch_then_exit".to_string(), "true".to_string()).unwrap();
    let bus = system_bus();
    let one = EventMessage::LauncherLaunched(LauncherLaunchedPayload { launcher_ids: vec![4] });
    assert_eq!(publish(&bus, &db, &one), vec![Action::HideWindow, Action::Exit]);
    let two = EventMessage::LauncherLaunched(LauncherLaunchedPayload { launcher_ids: vec![4, 5] });
    assert_eq!(publish(&bus, &db, &two), vec![Action::Exit]);
    assert_eq!(launch_then_exit(db.tables()), vec![Action::Exit]);
    assert_eq!(
        on_launcher_launched(db.tables(), &LauncherLaunchedPayload { launcher_ids: vec![1] }),
        vec![Action::HideWindow, Action::Exit]
    );
}

#[test]
fn basic_info_update_rebuilds_the_tray() {
    let db = store_with_two_launchers();
    let bus = system_bus();
    let event = EventMessage::LauncherBasicInfoUpdated(LauncherBasicInfoUpdatedPayload {
        launcher_ids: vec![1],
    });
    assert_eq!(publish(&bus, &db, &event), vec![two_launcher_menu()]);
    assert_eq!(refresh_tray(DatabaseManager::new().tables()), vec![quit_only()]);
}

#[test]
fn theme_setting_changes_the_theme() {
    let db = DatabaseManager::new();
    let bus = system_bus();
    let dark = EventMessage::SettingUpdated(SettingUpdatedPayload {
        key: "theme".to_string(),
        value: "dark".to_string(),
    });
    assert_eq!(publish(&bus, &db, &dark), vec![Action::ChangeTheme(WindowTheme::Dark)]);
    let light = SettingUpdatedPayload { key: "theme".to_string(), value: "light".to_string() };
    assert_eq!(change_theme(&light), vec![Action::ChangeTheme(WindowTheme::Light)]);
    let odd = SettingUpdatedPayload { key: "theme".to_string(), value: "Dark".to_string() };
    assert_eq!(change_theme(&odd), vec![Action::ChangeTheme(WindowTheme::System)]);
    let other = SettingUpdatedPayload { key: "close_main_panel".to_string(), value: "m2".to_string() };
    assert_eq!(change_theme(&other), vec![]);
}

#[test]
fn drag_drop_has_no_system_listener() {
    let db = DatabaseManager::new();
    let bus = system_bus();
    let event = EventMessage::DragDropResource(DragDropResourcePayload {
        paths: vec!["C:\\a".to_string()],
    });
    assert_eq!(publish(&bus, &db, &event), vec![]);
}

#[test]
fn interactive_startup_shows_window_and_tray() {
    let db = store_with_two_launchers();
    let bus = system_bus();
    let event = EventMessage::ApplicationStartupComplete(startup(&["app"]));
    assert_eq!(publish(&bus, &db, &event), vec![Action::ShowWindow, two_launcher_menu()]);
}

#[test]
fn auto_start_launches_listed_launchers() {
    let mut db = store_with_two_launchers();
    save_setting(&mut db, "auto_start_launcher_ids".to_string(), "[2, 1]".to_string()).unwrap();
    let bus = system_bus();
    let event = EventMessage::ApplicationStartupComplete(startup(&["app", "--auto"]));
    assert_eq!(
        publish(&bus, &db, &event),
        vec![
            Action::ShowWindow,
            two_launcher_menu(),
            open("a2", "C:\\a2"),
            open("b1", "https://b1"),
            open("a1", "C:\\a1"),
            launched(vec![2, 1]),
        ]
    );
}

#[test]
fn auto_start_list_is_ignored_without_the_flag() {
    let mut db = store_with_two_launchers();
    save_setting(&mut db, "auto_start_launcher_ids".to_string(), "[1]".to_string()).unwrap();
    save_setting(&mut db, "hide_after_auto_start".to_string(), "true".to_string()).unwrap();
    assert_eq!(launch_auto_start_launchers(db.tables(), &startup(&["app"])), vec![]);
    assert_eq!(hide_after_auto_start(db.tables(), &startup(&["app"])), vec![Action::ShowWindow]);
}

#[test]
fn auto_start_hides_window_when_asked() {
    let mut db = DatabaseManager::new();
    assert_eq!(
        hide_after_auto_start(db.tables(), &startup(&["app", "--auto"])),
        vec![Action::ShowWindow]
    );
    save_setting(&mut db, "hide_after_auto_start".to_string(), "true".to_string()).unwrap();
    assert_eq!(
        hide_after_auto_start(db.tables(), &startup(&["app", "--auto"])),
        vec![Action::HideWindow]
    );
    save_setting(&mut db, "hide_after_auto_start".to_string(), "no".to_string()).unwrap();
    assert_eq!(
        hide_after_auto_start(db.tables(), &startup(&["app", "--auto"])),
        vec![Action::ShowWindow]
    );
}

#[test]
fn auto_start_with_empty_or_unknown_launchers_launches_nothing() {
    let mut db = store_with_two_launchers();
    save_setting(&mut db, "auto_start_launcher_ids".to_string(), "[]".to_string()).unwrap();
    assert_eq!(launch_auto_start_launchers(db.tables(), &startup(&["--auto"])), vec![]);
    save_setting(&mut db, "auto_start_launcher_ids".to_string(), "[77]".to_string()).unwrap();
    assert_eq!(launch_auto_start_launchers(db.tables(), &startup(&["--auto"])), vec![]);
    assert_eq!(auto_launch(db.tables(), None), vec![]);
    assert_eq!(
        auto_launch(db.tables(), Some(vec![2])),
        vec![open("b1", "https://b1"), launched(vec![2])]
    );
}

#[test]
fn malformed_auto_start_list_does_not_stop_startup() {
    let mut db = store_with_two_launchers();
    save_setting(&mut db, "auto_start_launcher_ids".to_string(), "not-json".to_string()).unwrap();
    let bus = system_bus();
    let event =
        EventMessage::ApplicationStartupComplete(startup(&["app", "--auto", "launch", "2"]));
    assert_eq!(
        publish(&bus, &db, &event),
        vec![Action::ShowWindow, two_launcher_menu(), open("b1", "https://b1"), launched(vec![2])]
    );
    assert_eq!(
        on_application_startup_complete(db.tables(), &startup(&["app", "--auto"])),
        vec![Action::ShowWindow, two_launcher_menu()]
    );
}

#[test]
fn specified_launcher_is_launched_on_any_start() {
    let db = store_with_two_launchers();
    assert_eq!(
        launch_specified_launcher(db.tables(), &startup(&["app", "launch", "1"])),
        vec![open("a2", "C:\\a2"), open("a1", "C:\\a1"), launched(vec![1])]
    );
    assert_eq!(launch_specified_launcher(db.tables(), &startup(&["app", "launch", "one"])), vec![]);
    assert_eq!(launch_specified_launcher(db.tables(), &startup(&["app"])), vec![]);
}

#[test]
fn listener_with_foreign_payload_does_nothing() {
    let db = store_with_two_launchers();
    let mut bus = EventSystem::new();
    bus.register_listener(EventKind::LauncherLaunched, SystemListener::SettingUpdated);
    bus.register_listener(EventKind::LauncherLaunched, SystemListener::LauncherLaunched);
    bus.register_listener(EventKind::LauncherLaunched, SystemListener::LauncherBasicInfoUpdated);
    let one = EventMessage::LauncherLaunched(LauncherLaunchedPayload { launcher_ids: vec![4] });
    assert_eq!(publish(&bus, &db, &one), vec![Action::HideWindow]);
    assert_eq!(handle(SystemListener::SettingUpdated, db.tables(), &one), vec![]);
}

#[test]
fn listeners_are_called_in_order_of_registration() {
    let mut db = DatabaseManager::new();
    save_setting(&mut db, "launch_then_exit".to_string(), "true".to_string()).unwrap();
    let mut bus = system_bus();
    register_system_listeners(&mut bus);
    assert_eq!(bus.len(), 8);
    assert_eq!(
        bus.subscription(4),
        Subscription { kind: EventKind::LauncherLaunched, listener: SystemListener::LauncherLaunched }
    );
    let one = EventMessage::LauncherLaunched(LauncherLaunchedPayload { launcher_ids: vec![4] });
    assert_eq!(
        publish(&bus, &db, &one),
        vec![Action::HideWindow, Action::Exit, Action::HideWindow, Action::Exit]
    );
    assert_eq!(publish(&EventSystem::new(), &db, &one), vec![]);
}

#[test]
fn run_registers_listeners_and_publishes_startup() {
    let mut bus = EventSystem::new();
    let actions = run(&mut bus, args(&["app", "--auto"]));
    assert_eq!(bus.len(), 4);
    assert_eq!(
        actions,
        vec![Action::Publish(EventMessage::ApplicationStartupComplete(startup(&[
            "app", "--auto"
        ])))]
    );
}

#[test]
fn second_instance_launches_or_shows_the_window() {
    let db = store_with_two_launchers();
    assert_eq!(
        on_second_instance(&db, &args(&["app", "launch", "2"]), true),
        vec![open("b1", "https://b1"), launched(vec![2])]
    );
    assert_eq!(
        on_second_instance(&db, &args(&["app"]), true),
        vec![Action::UnmaximizeWindow, Action::ShowWindow, Action::FocusWindow]
    );
    assert_eq!(
        on_second_instance(&db, &args(&["app", "launch", "x"]), false),
        vec![Action::ShowWindow, Action::FocusWindow]
    );
}
