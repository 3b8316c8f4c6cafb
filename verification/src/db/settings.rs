//! The settings store: one string value per string key.

use vstd::prelude::*;
use crate::db::{Tables, TablesView};
use crate::text::str_equal;

verus! {

/// One persisted key/value setting.
#[derive(Debug, PartialEq, Eq)]
pub struct Settings {
    pub key: String,
    pub value: String,
}

/// The mathematical value of a `Settings` row.
pub struct SettingsView {
    pub key: Seq<char>,
    pub value: Seq<char>,
}

impl View for Settings {
    type V = SettingsView;

    open spec fn view(&self) -> SettingsView {
        SettingsView { key: self.key@, value: self.value@ }
    }
}

impl Clone for Settings {
    fn clone(&self) -> (copy: Self)
        ensures
            copy@ == self@,
    {
        Settings { key: self.key.clone(), value: self.value.clone() }
    }
}

/// The values of a run of settings rows.
pub open spec fn settings_views(rows: Seq<Settings>) -> Seq<SettingsView> {
    rows.map_values(|row: Settings| row@)
}

/// Whether some row of `settings` has the key `key`.
pub open spec fn has_key(settings: Seq<SettingsView>, key: Seq<char>) -> bool {
    exists|i: int| 0 <= i < settings.len() && (#[trigger] settings[i]).key == key
}

/// The value stored under `key`, if any.
pub open spec fn stored(settings: Seq<SettingsView>, key: Seq<char>) -> Option<Seq<char>> {
    if has_key(settings, key) {
        let i = choose|i: int| 0 <= i < settings.len() && (#[trigger] settings[i]).key == key;
        Some(settings[i].value)
    } else {
        None
    }
}

/// The rows after `value` was saved under `key`: the row of that key now
/// holds `value`, or, where there was none, a new row stands last.
pub open spec fn saved_rows(settings: Seq<SettingsView>, key: Seq<char>, value: Seq<char>) -> Seq<
    SettingsView,
> {
    if has_key(settings, key) {
        Seq::new(
            settings.len(),
            |i: int|
                if settings[i].key == key {
                    SettingsView { key: key, value: value }
                } else {
                    settings[i]
                },
        )
    } else {
        settings.push(SettingsView { key: key, value: value })
    }
}

/// Whether no key occurs twice in `settings`.
pub open spec fn distinct_keys(settings: Seq<SettingsView>) -> bool {
    forall|i: int, j: int|
        0 <= i < j < settings.len() ==> (#[trigger] settings[i]).key != (#[trigger] settings[j]).key
}

impl TablesView {
    /// The tables after `value` was saved under `key`.
    pub open spec fn saved(self, key: Seq<char>, value: Seq<char>) -> TablesView {
        TablesView { settings: saved_rows(self.settings, key, value), ..self }
    }
}

/// Where keys are distinct, the value stored under the key of a row is that
/// row's value.
pub proof fn lemma_stored_row(settings: Seq<SettingsView>, i: int)
    requires
        distinct_keys(settings),
        0 <= i < settings.len(),
    ensures
        stored(settings, settings[i].key) == Some(settings[i].value),
{
    let key = settings[i].key;
    assert(has_key(settings, key));
    let k = choose|k: int| 0 <= k < settings.len() && (#[trigger] settings[k]).key == key;
    if k < i {
        assert(settings[k].key != settings[i].key);
    } else if i < k {
        assert(settings[i].key != settings[k].key);
    }
}

/// A save keeps keys distinct, stores the value under its key and leaves
/// what is stored under every other key as it was.
pub proof fn lemma_saved_rows(settings: Seq<SettingsView>, key: Seq<char>, value: Seq<char>)
    requires
        distinct_keys(settings),
    ensures
        distinct_keys(saved_rows(settings, key, value)),
        stored(saved_rows(settings, key, value), key) == Some(value),
        forall|other: Seq<char>|
            other != key ==> #[trigger] stored(saved_rows(settings, key, value), other) == stored(
                settings,
                other,
            ),
{
    let out = saved_rows(settings, key, value);
    assert forall|a: int, b: int| 0 <= a < b < out.len() implies (#[trigger] out[a]).key != (
    #[trigger] out[b]).key by {
        if has_key(settings, key) {
            assert(settings[a].key != settings[b].key);
        } else if b < settings.len() {
            assert(settings[a].key != settings[b].key);
        }
    }
    if has_key(settings, key) {
        let i = choose|i: int| 0 <= i < settings.len() && (#[trigger] settings[i]).key == key;
        assert(out[i].key == key && out[i].value == value);
        lemma_stored_row(out, i);
    } else {
        assert(out[settings.len() as int].key == key);
        lemma_stored_row(out, settings.len() as int);
    }
    assert forall|other: Seq<char>| other != key implies #[trigger] stored(out, other) == stored(
        settings,
        other,
    ) by {
        if has_key(settings, other) {
            let i = choose|i: int| 0 <= i < settings.len() && (#[trigger] settings[i]).key == other;
            lemma_stored_row(settings, i);
            assert(out[i] == settings[i]);
            lemma_stored_row(out, i);
        } else if has_key(out, other) {
            let k = choose|k: int| 0 <= k < out.len() && (#[trigger] out[k]).key == other;
            if k < settings.len() {
                assert(settings[k].key == other);
            }
        }
    }
}

/// Saving twice under one key leaves what saving the second value alone
/// would have left: one row for the key, holding the later value, and no
/// trace of the earlier one.
pub proof fn lemma_save_overwrites(
    tables: TablesView,
    key: Seq<char>,
    first: Seq<char>,
    second: Seq<char>,
)
    requires
        tables.valid(),
    ensures
        tables.saved(key, first).saved(key, second) == tables.saved(key, second),
        tables.saved(key, first).saved(key, second).valid(),
        stored(tables.saved(key, first).saved(key, second).settings, key) == Some(second),
{
    let rows = tables.settings;
    let once = saved_rows(rows, key, first);
    let twice = saved_rows(once, key, second);
    let direct = saved_rows(rows, key, second);
    assert(distinct_keys(rows));
    lemma_saved_rows(rows, key, first);
    lemma_saved_rows(once, key, second);
    lemma_saved_rows(rows, key, second);
    if has_key(rows, key) {
        let i = choose|i: int| 0 <= i < rows.len() && (#[trigger] rows[i]).key == key;
        assert(once[i].key == key);
        assert(has_key(once, key));
        assert(twice =~= direct);
    } else {
        assert(once[rows.len() as int].key == key);
        assert(has_key(once, key));
        assert forall|k: int| 0 <= k < rows.len() implies (#[trigger] rows[k]).key != key by {}
        assert(twice =~= direct);
    }
}

/// Saves `settings.value` under `settings.key`, replacing what was stored
/// under that key.
pub fn save(executor: &mut Tables, settings: &Settings)
    requires
        old(executor).wf(),
    ensures
        final(executor).wf(),
        final(executor)@ == old(executor)@.saved(settings.key@, settings.value@),
{
    let ghost before = executor@;
    proof {
        lemma_saved_rows(before.settings, settings.key@, settings.value@);
    }
    let n = executor.settings.len();
    let mut i: usize = 0;
    while i < n
        invariant
            n == executor.settings.len(),
            i <= n,
            *executor == *old(executor),
            executor.wf(),
            before == executor@,
            distinct_keys(saved_rows(before.settings, settings.key@, settings.value@)),
            forall|k: int| 0 <= k < i ==> (#[trigger] executor.settings@[k]).key@ != settings.key@,
        decreases n - i,
    {
        if str_equal(executor.settings[i].key.as_str(), settings.key.as_str()) {
            executor.settings.set(i, settings.clone());
            proof {
                assert(before.settings[i as int].key == settings.key@);
                assert forall|k: int| 0 <= k < before.settings.len() && k != i implies (
                #[trigger] before.settings[k]).key != settings.key@ by {
                    if k < i {
                        assert(before.settings[k].key != before.settings[i as int].key);
                    } else {
                        assert(before.settings[i as int].key != before.settings[k].key);
                    }
                }
                assert(executor@.settings =~= saved_rows(
                    before.settings,
                    settings.key@,
                    settings.value@,
                ));
                assert(executor@.launchers == before.launchers);
                assert(executor@.resources == before.resources);
            }
            return ;
        }
        i = i + 1;
    }
    proof {
        assert forall|k: int| 0 <= k < before.settings.len() implies (
        #[trigger] before.settings[k]).key != settings.key@ by {
            assert(executor.settings@[k].key@ != settings.key@);
        }
    }
    executor.settings.push(settings.clone());
    proof {
        assert(executor@.settings =~= saved_rows(before.settings, settings.key@, settings.value@));
        assert(executor@.launchers == before.launchers);
        assert(executor@.resources == before.resources);
    }
}

/// The setting stored under `key`, or `None` when the key is unset.
pub fn read(executor: &Tables, key: &str) -> (found: Option<Settings>)
    requires
        executor.wf(),
    ensures
        match found {
            Some(row) => row.key@ == key@ && stored(executor@.settings, key@) == Some(row.value@),
            None => stored(executor@.settings, key@) is None,
        },
{
    let n = executor.settings.len();
    let mut i: usize = 0;
    while i < n
        invariant
            n == executor.settings.len(),
            i <= n,
            executor.wf(),
            forall|k: int| 0 <= k < i ==> (#[trigger] executor.settings@[k]).key@ != key@,
        decreases n - i,
    {
        if str_equal(executor.settings[i].key.as_str(), key) {
            let row = executor.settings[i].clone();
            proof {
                assert(executor@.settings[i as int] == row@);
                lemma_stored_row(executor@.settings, i as int);
            }
            return Some(row);
        }
        i = i + 1;
    }
    proof {
        assert forall|k: int| 0 <= k < executor@.settings.len() implies (
        #[trigger] executor@.settings[k]).key != key@ by {
            assert(executor.settings@[k].key@ != key@);
        }
    }
    None
}

/// Every setting, one row for each key.
pub fn read_all(executor: &Tables) -> (rows: Vec<Settings>)
    requires
        executor.wf(),
    ensures
        settings_views(rows@) == executor@.settings,
        distinct_keys(settings_views(rows@)),
{
    let n = executor.settings.len();
    let mut rows: Vec<Settings> = Vec::new();
    let mut i: usize = 0;
    while i < n
        invariant
            n == executor.settings.len(),
            i <= n,
            rows.len() == i,
            forall|k: int| 0 <= k < i ==> (#[trigger] rows@[k])@ == executor.settings@[k]@,
        decreases n - i,
    {
        rows.push(executor.settings[i].clone());
        i = i + 1;
    }
    proof {
        assert(settings_views(rows@) =~= executor@.settings);
    }
    rows
}

} // verus!
