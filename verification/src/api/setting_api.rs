//! Commands on settings.

use vstd::prelude::*;
use crate::constants::LAUNCH_THEN_EXIT_KEY;
use crate::db::{DatabaseManager, Tables, TablesView};
use crate::db::settings::{self, Settings, distinct_keys, settings_views, stored};
use crate::error::OneClickLaunchError;
use crate::events::types::SettingUpdatedPayload;
use crate::text::{lowercased, to_lowercase, trim, trimmed, str_equal};

verus! {

/// Whether a settings value stands for "yes": without the white space at
/// its ends and in lowercase it reads `true`.
pub open spec fn spec_string_to_bool(value: Seq<char>) -> bool {
    lowercased(trimmed(value)) == "true"@
}

/// Whether a settings value stands for "yes".
pub fn string_to_bool(s: &str) -> (yes: bool)
    ensures
        yes == spec_string_to_bool(s@),
{
    let lower = to_lowercase(trim(s));
    is_true(lower.as_str())
}

/// Whether a trimmed, lowercase settings value stands for "yes".
pub fn is_true(normalized: &str) -> (yes: bool)
    ensures
        yes == (normalized@ == "true"@),
{
    str_equal(normalized, "true")
}

/// Whether the setting under `key` stands for "yes"; an unset key does not.
pub open spec fn flag_set(tables: TablesView, key: Seq<char>) -> bool {
    match stored(tables.settings, key) {
        Some(value) => spec_string_to_bool(value),
        None => false,
    }
}

/// Whether the setting under `key` stands for "yes".
pub fn read_flag(executor: &Tables, key: &str) -> (set: bool)
    requires
        executor.wf(),
    ensures
        set == flag_set(executor@, key@),
{
    match settings::read(executor, key) {
        Some(setting) => string_to_bool(setting.value.as_str()),
        None => false,
    }
}

/// Saves `value` under `key` and returns the payload of the event that
/// tells of it. Saving the same value again changes nothing.
pub fn save_setting(db: &mut DatabaseManager, key: String, value: String) -> (saved: Result<
    SettingUpdatedPayload,
    OneClickLaunchError,
>)
    requires
        old(db).wf(),
    ensures
        final(db).wf(),
        final(db)@ == old(db)@.saved(key@, value@),
        match saved {
            Ok(payload) => payload.key@ == key@ && payload.value@ == value@,
            Err(_) => false,
        },
{
    let mut tx = db.begin();
    let setting = Settings { key, value };
    settings::save(&mut tx, &setting);
    db.commit(tx);
    Ok(SettingUpdatedPayload { key: setting.key, value: setting.value })
}

/// The setting stored under `key`; `None`, and no error, when the key is
/// unset.
pub fn read_setting(db: &DatabaseManager, key: &str) -> (found: Result<
    Option<Settings>,
    OneClickLaunchError,
>)
    requires
        db.wf(),
    ensures
        match found {
            Ok(Some(row)) => row.key@ == key@ && stored(db@.settings, key@) == Some(row.value@),
            Ok(None) => stored(db@.settings, key@) is None,
            Err(_) => false,
        },
{
    Ok(settings::read(db.tables(), key))
}

/// Every setting, one row for each key.
pub fn read_all_setting(db: &DatabaseManager) -> (rows: Result<Vec<Settings>, OneClickLaunchError>)
    requires
        db.wf(),
    ensures
        match rows {
            Ok(rows) => settings_views(rows@) == db@.settings && distinct_keys(
                settings_views(rows@),
            ),
            Err(_) => false,
        },
{
    Ok(settings::read_all(db.tables()))
}

/// Whether the process is to end once a launcher was launched.
pub fn check_launch_then_exit(executor: &Tables) -> (exit: bool)
    requires
        executor.wf(),
    ensures
        exit == flag_set(executor@, LAUNCH_THEN_EXIT_KEY@),
{
    read_flag(executor, LAUNCH_THEN_EXIT_KEY)
}

} // verus!
