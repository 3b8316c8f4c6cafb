use one_click_launch::api::setting_api::{
    check_launch_then_exit, is_true, read_all_setting, read_flag, read_setting, save_setting,
    string_to_bool,
};
use one_click_launch::db::settings::Settings;
use one_click_launch::DatabaseManager;

fn setting(key: &str, value: &str) -> Settings {
    Settings { key: key.to_string(), value: value.to_string() }
}

#[test]
fn read_of_unset_key_is_none() {
    let db = DatabaseManager::new();
    assert_eq!(read_setting(&db, "theme").unwrap(), None);
    assert!(read_all_setting(&db).unwrap().is_empty());
}

#[test]
fn save_then_read() {
    let mut db = DatabaseManager::new();
    let payload = save_setting(&mut db, "theme".to_string(), "dark".to_string()).unwrap();
    assert_eq!((payload.key.as_str(), payload.value.as_str()), ("theme", "dark"));
    assert_eq!(read_setting(&db, "theme").unwrap(), Some(setting("theme", "dark")));
    assert_eq!(read_setting(&db, "Theme").unwrap(), None);
}

#[test]
fn second_save_replaces_first() {
    let mut db = DatabaseManager::new();
    save_setting(&mut db, "other".to_string(), "o".to_string()).unwrap();
    save_setting(&mut db, "key".to_string(), "v1".to_string()).unwrap();
    save_setting(&mut db, "key".to_string(), "v2".to_string()).unwrap();
    assert_eq!(read_setting(&db, "key").unwrap(), Some(setting("key", "v2")));
    let all = read_all_setting(&db).unwrap();
    assert_eq!(all.len(), 2);
    assert_eq!(all.iter().filter(|s| s.key == "key").count(), 1);
    assert!(all.contains(&setting("other", "o")));
    assert!(all.contains(&setting("key", "v2")));
}

#[test]
fn saving_the_same_value_again_changes_nothing() {
    let mut db = DatabaseManager::new();
    save_setting(&mut db, "key".to_string(), "v".to_string()).unwrap();
    let before = read_all_setting(&db).unwrap();
    save_setting(&mut db, "key".to_string(), "v".to_string()).unwrap();
    assert_eq!(read_all_setting(&db).unwrap(), before);
}

#[test]
fn empty_key_and_value_are_stored() {
    let mut db = DatabaseManager::new();
    save_setting(&mut db, String::new(), String::new()).unwrap();
    assert_eq!(read_setting(&db, "").unwrap(), Some(setting("", "")));
}

#[test]
fn string_to_bool_trims_and_ignores_case() {
    assert!(string_to_bool("true"));
    assert!(string_to_bool("  TRUE \n"));
    assert!(string_to_bool("True"));
    assert!(!string_to_bool("false"));
    assert!(!string_to_bool(""));
    assert!(!string_to_bool("1"));
    assert!(!string_to_bool("yes"));
    assert!(!string_to_bool("t rue"));
    assert!(!string_to_bool("truee"));
}

#[test]
fn is_true_is_exact() {
    assert!(is_true("true"));
    assert!(!is_true("TRUE"));
    assert!(!is_true(" true"));
    assert!(!is_true(""));
}

#[test]
fn launch_then_exit_flag() {
    let mut db = DatabaseManager::new();
    assert!(!check_launch_then_exit(db.tables()));
    save_setting(&mut db, "launch_then_exit".to_string(), " True ".to_string()).unwrap();
    assert!(check_launch_then_exit(db.tables()));
    assert!(read_flag(db.tables(), "launch_then_exit"));
    assert!(!read_flag(db.tables(), "hide_after_auto_start"));
    save_setting(&mut db, "launch_then_exit".to_string(), "false".to_string()).unwrap();
    assert!(!check_launch_then_exit(db.tables()));
}
