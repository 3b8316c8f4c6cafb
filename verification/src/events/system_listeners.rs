//! The listeners that the application registers at startup: what each
//! event leads to, as a list of actions.

use vstd::prelude::*;
use crate::action::{Action, ActionView, action_views, append_actions, push_action};
use crate::api::launcher_api::{launch_actions, launch_in, launch_resources, open_actions};
use crate::api::setting_api::{check_launch_then_exit, flag_set, read_flag};
use crate::api::window_api::{change_windows_theme, refresh_tray as tray_items, spec_theme, tray_menu};
use crate::arg_value;
use crate::constants::{
    AUTO_START_FLAG, AUTO_START_LAUNCHER_IDS_KEY, HIDE_AFTER_AUTO_START_KEY,
    LAUNCH_SPECIFIED_LAUNCHER_KEY, LAUNCH_THEN_EXIT_KEY, THEME_KEY,
};
use crate::db::{Tables, TablesView};
use crate::db::launcher::listing_of;
use crate::db::launcher_resource::{Selection, query_by_launcher_ids, selected};
use crate::db::settings::{self, stored};
use crate::error::OneClickLaunchError;
use crate::db::DatabaseManager;
use crate::events::{
    EventKind, EventMessage, EventMessageView, EventSystem, Subscription, SystemListener,
};
use crate::events::types::{
    ApplicationStartupCompletePayload, LauncherLaunchedPayload, SettingUpdatedPayload, texts,
};
use crate::extract_arg_value;
use crate::text::{parse_i64, spec_parse_i64, str_equal};

verus! {

#[verifier::external_type_specification]
#[verifier::external_body]
pub struct ExJsonError(serde_json::Error);

/// The list of launcher identifiers that a JSON text holds: what
/// `serde_json::from_str` makes of the text as a list of 64-bit integers,
/// or `None` where it reports an error.
pub uninterp spec fn json_id_list(text: Seq<char>) -> Option<Seq<i64>>;

/// Reads a JSON array of integers. Trusted: `serde_json::from_str` at the
/// type `Vec<i64>`, whose result depends on the text alone; the contract
/// only gives that result a name.
#[verifier::external_body]
fn read_id_list(text: &str) -> (parsed: Result<Vec<i64>, serde_json::Error>)
    ensures
        match parsed {
            Ok(ids) => json_id_list(text@) == Some(ids@),
            Err(_) => json_id_list(text@) is None,
        },
{
    serde_json::from_str::<Vec<i64>>(text)
}

/// The launcher identifiers that a settings value lists, or
/// `SerializationError` where the value is no JSON array of integers.
pub fn parse_id_list(text: &str) -> (parsed: Result<Vec<i64>, OneClickLaunchError>)
    ensures
        match parsed {
            Ok(ids) => json_id_list(text@) == Some(ids@),
            Err(e) => json_id_list(text@) is None && e == OneClickLaunchError::SerializationError,
        },
{
    match read_id_list(text) {
        Ok(ids) => Ok(ids),
        Err(_) => Err(OneClickLaunchError::SerializationError),
    }
}

/// Whether the arguments tell of a start by the operating system at login.
pub open spec fn is_auto_start(args: Seq<Seq<char>>) -> bool {
    args.contains(AUTO_START_FLAG@)
}

/// Whether `args` holds the automatic-start flag.
pub fn has_auto_start_flag(args: &Vec<String>) -> (auto: bool)
    ensures
        auto == is_auto_start(texts(args@)),
{
    let n = args.len();
    let mut i: usize = 0;
    while i < n
        invariant
            n == args.len(),
            i <= n,
            forall|k: int| 0 <= k < i ==> (#[trigger] args@[k])@ != AUTO_START_FLAG@,
        decreases n - i,
    {
        if str_equal(args[i].as_str(), AUTO_START_FLAG) {
            proof {
                assert(texts(args@)[i as int] == AUTO_START_FLAG@);
            }
            return true;
        }
        i = i + 1;
    }
    proof {
        assert forall|k: int| 0 <= k < texts(args@).len() implies texts(args@)[k]
            != AUTO_START_FLAG@ by {
            assert(args@[k]@ != AUTO_START_FLAG@);
        }
    }
    false
}

/// After a launch: hide the window if and only if exactly one launcher was
/// launched.
pub open spec fn hide_actions(launcher_ids: Seq<i64>) -> Seq<ActionView> {
    if launcher_ids.len() == 1 {
        seq![ActionView::HideWindow]
    } else {
        Seq::empty()
    }
}

/// After a launch: end the process if the setting asks for it.
pub open spec fn exit_actions(tables: TablesView) -> Seq<ActionView> {
    if flag_set(tables, LAUNCH_THEN_EXIT_KEY@) {
        seq![ActionView::Exit]
    } else {
        Seq::empty()
    }
}

/// What a launch leads to: first the window, then the process.
pub open spec fn launched_actions(tables: TablesView, launcher_ids: Seq<i64>) -> Seq<ActionView> {
    hide_actions(launcher_ids) + exit_actions(tables)
}

/// The tray menu is rebuilt from the launchers in listing order.
pub open spec fn tray_actions(tables: TablesView) -> Seq<ActionView> {
    seq![ActionView::RefreshTray { items: tray_menu(listing_of(tables.launchers)) }]
}

/// After startup the window is shown, unless the start was automatic and
/// the setting asks to keep it hidden.
pub open spec fn visibility_actions(tables: TablesView, args: Seq<Seq<char>>) -> Seq<ActionView> {
    if is_auto_start(args) && flag_set(tables, HIDE_AFTER_AUTO_START_KEY@) {
        seq![ActionView::HideWindow]
    } else {
        seq![ActionView::ShowWindow]
    }
}

/// The launchers that the settings list for an automatic start; `None`
/// where the setting is unset or is no JSON array of integers.
pub open spec fn auto_start_ids(tables: TablesView) -> Option<Seq<i64>> {
    match stored(tables.settings, AUTO_START_LAUNCHER_IDS_KEY@) {
        Some(value) => json_id_list(value),
        None => None,
    }
}

/// What launching the listed launchers asks for: open every resource of
/// any of them, most recently created first, then publish that they were
/// launched; nothing at all where there is no list or no such resource.
pub open spec fn auto_launch_actions(tables: TablesView, ids: Option<Seq<i64>>) -> Seq<ActionView> {
    match ids {
        Some(ids) => {
            let rows = selected(tables.resources, Selection::Launchers(ids), true).reverse();
            if rows.len() > 0 {
                open_actions(rows).push(
                    ActionView::Publish {
                        event: EventMessageView::LauncherLaunched { launcher_ids: ids },
                    },
                )
            } else {
                Seq::empty()
            }
        },
        None => Seq::empty(),
    }
}

/// After an automatic start the launchers listed in the settings are
/// launched; after any other start none.
pub open spec fn auto_start_actions(tables: TablesView, args: Seq<Seq<char>>) -> Seq<ActionView> {
    if is_auto_start(args) {
        auto_launch_actions(tables, auto_start_ids(tables))
    } else {
        Seq::empty()
    }
}

/// The launcher that the arguments ask to launch: the integer behind the
/// launch key, if there is one.
pub open spec fn requested_launcher(args: Seq<Seq<char>>) -> Option<i64> {
    match arg_value(args, LAUNCH_SPECIFIED_LAUNCHER_KEY@) {
        Some(value) => spec_parse_i64(value),
        None => None,
    }
}

/// The launcher that the arguments name is launched, whatever kind of
/// start it was.
pub open spec fn specified_actions(tables: TablesView, args: Seq<Seq<char>>) -> Seq<ActionView> {
    match requested_launcher(args) {
        Some(id) => launch_actions(tables, id),
        None => Seq::empty(),
    }
}

/// What the end of startup leads to, in order: the window's visibility,
/// the tray menu, the automatic launches, the launch that was asked for.
pub open spec fn startup_actions(tables: TablesView, args: Seq<Seq<char>>) -> Seq<ActionView> {
    visibility_actions(tables, args) + tray_actions(tables) + auto_start_actions(tables, args)
        + specified_actions(tables, args)
}

/// A saved theme is applied to the window; any other setting leads to
/// nothing here.
pub open spec fn setting_actions(key: Seq<char>, value: Seq<char>) -> Seq<ActionView> {
    if key == THEME_KEY@ {
        seq![ActionView::ChangeTheme { theme: spec_theme(value) }]
    } else {
        Seq::empty()
    }
}

/// Hides the window after the launch of a single launcher.
pub fn hide_window(payload: &LauncherLaunchedPayload) -> (actions: Vec<Action>)
    ensures
        action_views(actions@) == hide_actions(payload.launcher_ids@),
{
    let mut actions: Vec<Action> = Vec::new();
    proof {
        assert(action_views(actions@) =~= Seq::<ActionView>::empty());
    }
    if payload.launcher_ids.len() == 1 {
        push_action(&mut actions, Action::HideWindow);
        proof {
            assert(action_views(actions@) =~= seq![ActionView::HideWindow]);
        }
    }
    actions
}

/// Ends the process after a launch where the setting asks for it.
pub fn launch_then_exit(executor: &Tables) -> (actions: Vec<Action>)
    requires
        executor.wf(),
    ensures
        action_views(actions@) == exit_actions(executor@),
{
    let mut actions: Vec<Action> = Vec::new();
    proof {
        assert(action_views(actions@) =~= Seq::<ActionView>::empty());
    }
    if check_launch_then_exit(executor) {
        push_action(&mut actions, Action::Exit);
        proof {
            assert(action_views(actions@) =~= seq![ActionView::Exit]);
        }
    }
    actions
}

/// Rebuilds the tray menu.
pub fn refresh_tray(executor: &Tables) -> (actions: Vec<Action>)
    requires
        executor.wf(),
    ensures
        action_views(actions@) == tray_actions(executor@),
{
    let items = tray_items(executor);
    let mut actions: Vec<Action> = Vec::new();
    proof {
        assert(action_views(actions@) =~= Seq::<ActionView>::empty());
    }
    push_action(&mut actions, Action::RefreshTray(items));
    proof {
        assert(action_views(actions@) =~= tray_actions(executor@));
    }
    actions
}

/// Shows the window after startup, or keeps it hidden after an automatic
/// start where the setting asks for that.
pub fn hide_after_auto_start(executor: &Tables, payload: &ApplicationStartupCompletePayload) -> (
    actions: Vec<Action>)
    requires
        executor.wf(),
    ensures
        action_views(actions@) == visibility_actions(executor@, texts(payload.args@)),
{
    let mut actions: Vec<Action> = Vec::new();
    proof {
        assert(action_views(actions@) =~= Seq::<ActionView>::empty());
    }
    if has_auto_start_flag(&payload.args) && read_flag(executor, HIDE_AFTER_AUTO_START_KEY) {
        push_action(&mut actions, Action::HideWindow);
        proof {
            assert(action_views(actions@) =~= seq![ActionView::HideWindow]);
        }
    } else {
        push_action(&mut actions, Action::ShowWindow);
        proof {
            assert(action_views(actions@) =~= seq![ActionView::ShowWindow]);
        }
    }
    actions
}

/// Launches the launchers of `ids`, as far as they have resources.
pub fn auto_launch(executor: &Tables, ids: Option<Vec<i64>>) -> (actions: Vec<Action>)
    requires
        executor.wf(),
    ensures
        action_views(actions@) == auto_launch_actions(
            executor@,
            match ids {
                Some(ids) => Some(ids@),
                None => None,
            },
        ),
{
    match ids {
        Some(ids) => {
            let rows = query_by_launcher_ids(executor, &ids);
            if rows.len() > 0 {
                let mut actions = launch_resources(&rows);
                push_action(
                    &mut actions,
                    Action::Publish(
                        EventMessage::LauncherLaunched(
                            LauncherLaunchedPayload { launcher_ids: ids },
                        ),
                    ),
                );
                actions
            } else {
                let actions: Vec<Action> = Vec::new();
                proof {
                    assert(action_views(actions@) =~= Seq::<ActionView>::empty());
                }
                actions
            }
        },
        None => {
            let actions: Vec<Action> = Vec::new();
            proof {
                assert(action_views(actions@) =~= Seq::<ActionView>::empty());
            }
            actions
        },
    }
}

/// After an automatic start, launches the launchers that the settings
/// list. A list that cannot be read counts as no list: nothing is launched
/// and nothing fails.
pub fn launch_auto_start_launchers(
    executor: &Tables,
    payload: &ApplicationStartupCompletePayload,
) -> (actions: Vec<Action>)
    requires
        executor.wf(),
    ensures
        action_views(actions@) == auto_start_actions(executor@, texts(payload.args@)),
{
    if has_auto_start_flag(&payload.args) {
        let ids = match settings::read(executor, AUTO_START_LAUNCHER_IDS_KEY) {
            Some(setting) => match parse_id_list(setting.value.as_str()) {
                Ok(ids) => Some(ids),
                Err(_) => None,
            },
            None => None,
        };
        auto_launch(executor, ids)
    } else {
        let actions: Vec<Action> = Vec::new();
        proof {
            assert(action_views(actions@) =~= Seq::<ActionView>::empty());
        }
        actions
    }
}

/// The launcher that `args` asks to launch.
pub fn launcher_to_launch(args: &Vec<String>) -> (id: Option<i64>)
    ensures
        id == requested_launcher(texts(args@)),
{
    match extract_arg_value(args.as_slice(), LAUNCH_SPECIFIED_LAUNCHER_KEY) {
        Some(value) => parse_i64(value.as_str()),
        None => None,
    }
}

/// Launches the launcher that the arguments name, if they name one.
pub fn launch_specified_launcher(
    executor: &Tables,
    payload: &ApplicationStartupCompletePayload,
) -> (actions: Vec<Action>)
    requires
        executor.wf(),
    ensures
        action_views(actions@) == specified_actions(executor@, texts(payload.args@)),
{
    match launcher_to_launch(&payload.args) {
        Some(id) => launch_in(executor, id),
        None => {
            let actions: Vec<Action> = Vec::new();
            proof {
                assert(action_views(actions@) =~= Seq::<ActionView>::empty());
            }
            actions
        },
    }
}

/// Applies a saved theme to the window.
pub fn change_theme(payload: &SettingUpdatedPayload) -> (actions: Vec<Action>)
    ensures
        action_views(actions@) == setting_actions(payload.key@, payload.value@),
{
    let mut actions: Vec<Action> = Vec::new();
    proof {
        assert(action_views(actions@) =~= Seq::<ActionView>::empty());
    }
    if str_equal(THEME_KEY, payload.key.as_str()) {
        let theme = change_windows_theme(payload.value.as_str());
        push_action(&mut actions, Action::ChangeTheme(theme));
        proof {
            assert(action_views(actions@) =~= seq![ActionView::ChangeTheme { theme: theme }]);
        }
    }
    actions
}

/// What a launch leads to.
pub fn on_launcher_launched(executor: &Tables, payload: &LauncherLaunchedPayload) -> (actions: Vec<
    Action,
>)
    requires
        executor.wf(),
    ensures
        action_views(actions@) == launched_actions(executor@, payload.launcher_ids@),
{
    let mut actions = hide_window(payload);
    append_actions(&mut actions, launch_then_exit(executor));
    actions
}

/// What the end of startup leads to.
pub fn on_application_startup_complete(
    executor: &Tables,
    payload: &ApplicationStartupCompletePayload,
) -> (actions: Vec<Action>)
    requires
        executor.wf(),
    ensures
        action_views(actions@) == startup_actions(executor@, texts(payload.args@)),
{
    let mut actions = hide_after_auto_start(executor, payload);
    append_actions(&mut actions, refresh_tray(executor));
    append_actions(&mut actions, launch_auto_start_launchers(executor, payload));
    append_actions(&mut actions, launch_specified_launcher(executor, payload));
    actions
}

/// What `listener` makes of `event`. A listener that is handed an event
/// with another payload than its own does nothing; that keeps no other
/// listener from its work.
pub open spec fn handled(listener: SystemListener, tables: TablesView, event: EventMessageView) -> Seq<
    ActionView,
> {
    match (listener, event) {
        (
            SystemListener::LauncherLaunched,
            EventMessageView::LauncherLaunched { launcher_ids },
        ) => launched_actions(tables, launcher_ids),
        (
            SystemListener::LauncherBasicInfoUpdated,
            EventMessageView::LauncherBasicInfoUpdated { .. },
        ) => tray_actions(tables),
        (
            SystemListener::ApplicationStartupComplete,
            EventMessageView::ApplicationStartupComplete { args },
        ) => startup_actions(tables, args),
        (SystemListener::SettingUpdated, EventMessageView::SettingUpdated { key, value }) => setting_actions(
            key,
            value,
        ),
        _ => Seq::empty(),
    }
}

/// Hands `event` to `listener`.
pub fn handle(listener: SystemListener, executor: &Tables, event: &EventMessage) -> (actions: Vec<
    Action,
>)
    requires
        executor.wf(),
    ensures
        action_views(actions@) == handled(listener, executor@, event@),
{
    match (listener, event) {
        (SystemListener::LauncherLaunched, EventMessage::LauncherLaunched(payload)) => {
            on_launcher_launched(executor, payload)
        },
        (SystemListener::LauncherBasicInfoUpdated, EventMessage::LauncherBasicInfoUpdated(_)) => {
            refresh_tray(executor)
        },
        (
            SystemListener::ApplicationStartupComplete,
            EventMessage::ApplicationStartupComplete(payload),
        ) => on_application_startup_complete(executor, payload),
        (SystemListener::SettingUpdated, EventMessage::SettingUpdated(payload)) => change_theme(
            payload,
        ),
        _ => {
            let actions: Vec<Action> = Vec::new();
            proof {
                assert(action_views(actions@) =~= Seq::<ActionView>::empty());
            }
            actions
        },
    }
}

/// What publishing `event` leads to: the actions of every listener that
/// is registered for the kind of the event, in the order of registration.
pub open spec fn published(
    subscriptions: Seq<Subscription>,
    tables: TablesView,
    event: EventMessageView,
) -> Seq<ActionView>
    decreases subscriptions.len(),
{
    if subscriptions.len() == 0 {
        Seq::empty()
    } else {
        published(subscriptions.drop_last(), tables, event) + (if subscriptions.last().kind
            == event.kind() {
            handled(subscriptions.last().listener, tables, event)
        } else {
            Seq::empty()
        })
    }
}

/// Publishes `event`: hands it to every listener registered for its kind
/// and returns their actions.
pub fn publish(bus: &EventSystem, db: &DatabaseManager, event: &EventMessage) -> (actions: Vec<
    Action,
>)
    requires
        db.wf(),
    ensures
        action_views(actions@) == published(bus@, db@, event@),
{
    let executor = db.tables();
    let kind = event.kind();
    let n = bus.len();
    let mut actions: Vec<Action> = Vec::new();
    let mut i: usize = 0;
    proof {
        assert(action_views(actions@) =~= Seq::<ActionView>::empty());
        assert(bus@.take(0) =~= Seq::<Subscription>::empty());
    }
    while i < n
        invariant
            n == bus@.len(),
            i <= n,
            executor.wf(),
            executor@ == db@,
            kind == event@.kind(),
            action_views(actions@) == published(bus@.take(i as int), db@, event@),
        decreases n - i,
    {
        let subscription = bus.subscription(i);
        proof {
            assert(bus@.take(i + 1).drop_last() =~= bus@.take(i as int));
            assert(bus@.take(i + 1).last() == subscription);
        }
        if subscription.kind == kind {
            append_actions(&mut actions, handle(subscription.listener, executor, event));
        } else {
            proof {
                assert(action_views(actions@) + Seq::<ActionView>::empty() =~= action_views(
                    actions@,
                ));
            }
        }
        i = i + 1;
    }
    proof {
        assert(bus@.take(n as int) =~= bus@);
    }
    actions
}

/// The listeners that the application registers, each for the kind of
/// event it is made for.
pub open spec fn system_subscriptions() -> Seq<Subscription> {
    seq![
        Subscription {
            kind: EventKind::LauncherLaunched,
            listener: SystemListener::LauncherLaunched,
        },
        Subscription {
            kind: EventKind::LauncherBasicInfoUpdated,
            listener: SystemListener::LauncherBasicInfoUpdated,
        },
        Subscription {
            kind: EventKind::ApplicationStartupComplete,
            listener: SystemListener::ApplicationStartupComplete,
        },
        Subscription { kind: EventKind::SettingUpdated, listener: SystemListener::SettingUpdated },
    ]
}

/// Registers the application's listeners.
pub fn register_system_listeners(bus: &mut EventSystem)
    ensures
        final(bus)@ == old(bus)@ + system_subscriptions(),
{
    bus.register_listener(EventKind::LauncherLaunched, SystemListener::LauncherLaunched);
    bus.register_listener(
        EventKind::LauncherBasicInfoUpdated,
        SystemListener::LauncherBasicInfoUpdated,
    );
    bus.register_listener(
        EventKind::ApplicationStartupComplete,
        SystemListener::ApplicationStartupComplete,
    );
    bus.register_listener(EventKind::SettingUpdated, SystemListener::SettingUpdated);
    proof {
        assert(bus@ =~= old(bus)@ + system_subscriptions());
    }
}

/// With the application's listeners registered, publishing an event leads
/// to what the listener of its kind makes of it, and to nothing for a kind
/// without a listener.
pub proof fn lemma_system_published(tables: TablesView, event: EventMessageView)
    ensures
        published(system_subscriptions(), tables, event) == match event {
            EventMessageView::LauncherLaunched { launcher_ids } => launched_actions(
                tables,
                launcher_ids,
            ),
            EventMessageView::LauncherBasicInfoUpdated { .. } => tray_actions(tables),
            EventMessageView::ApplicationStartupComplete { args } => startup_actions(tables, args),
            EventMessageView::SettingUpdated { key, value } => setting_actions(key, value),
            EventMessageView::DragDropResource { .. } => Seq::<ActionView>::empty(),
        },
{
    let all = system_subscriptions();
    let three = all.drop_last();
    let two = three.drop_last();
    let one = two.drop_last();
    let none = one.drop_last();
    assert(none.len() == 0);
    assert(published(none, tables, event) =~= Seq::<ActionView>::empty());
    assert(one.last() == all[0]);
    assert(two.last() == all[1]);
    assert(three.last() == all[2]);
    assert(all.last() == all[3]);
    let first = published(one, tables, event);
    let second = published(two, tables, event);
    let third = published(three, tables, event);
    let fourth = published(all, tables, event);
    let nothing = Seq::<ActionView>::empty();
    match event {
        EventMessageView::LauncherLaunched { launcher_ids } => {
            assert(first =~= launched_actions(tables, launcher_ids));
            assert(second =~= first + nothing);
            assert(third =~= second + nothing);
            assert(fourth =~= third + nothing);
        },
        EventMessageView::LauncherBasicInfoUpdated { .. } => {
            assert(first =~= nothing);
            assert(second =~= tray_actions(tables));
            assert(third =~= second + nothing);
            assert(fourth =~= third + nothing);
        },
        EventMessageView::ApplicationStartupComplete { args } => {
            assert(first =~= nothing);
            assert(second =~= nothing);
            assert(third =~= startup_actions(tables, args));
            assert(fourth =~= third + nothing);
        },
        EventMessageView::SettingUpdated { key, value } => {
            assert(first =~= nothing);
            assert(second =~= nothing);
            assert(third =~= nothing);
            assert(fourth =~= setting_actions(key, value));
        },
        EventMessageView::DragDropResource { .. } => {
            assert(first =~= nothing);
            assert(second =~= nothing);
            assert(third =~= nothing);
            assert(fourth =~= nothing);
        },
    }
}

/// Publishing that launchers were launched hides the window exactly when
/// one launcher was launched: not for none, not for two or more.
pub proof fn lemma_launch_hides_for_one(tables: TablesView, launcher_ids: Seq<i64>)
    ensures
        published(
            system_subscriptions(),
            tables,
            EventMessageView::LauncherLaunched { launcher_ids },
        ).contains(ActionView::HideWindow) <==> launcher_ids.len() == 1,
{
    let event = EventMessageView::LauncherLaunched { launcher_ids };
    lemma_system_published(tables, event);
    let actions = launched_actions(tables, launcher_ids);
    if launcher_ids.len() == 1 {
        assert(actions[0] == ActionView::HideWindow);
    } else {
        assert(actions =~= exit_actions(tables));
        if actions.contains(ActionView::HideWindow) {
            let k = choose|k: int| 0 <= k < actions.len() && actions[k] == ActionView::HideWindow;
            assert(actions[k] == ActionView::Exit);
        }
    }
}

/// A list of automatic launchers that cannot be read keeps nothing else
/// of the startup from happening: the window's visibility is settled, the
/// tray menu is rebuilt, and the launcher that the arguments name is
/// launched, as if no list had been set.
pub proof fn lemma_startup_survives_unreadable_list(tables: TablesView, args: Seq<Seq<char>>)
    requires
        auto_start_ids(tables) is None,
    ensures
        published(
            system_subscriptions(),
            tables,
            EventMessageView::ApplicationStartupComplete { args },
        ) == visibility_actions(tables, args) + tray_actions(tables) + specified_actions(
            tables,
            args,
        ),
{
    lemma_system_published(tables, EventMessageView::ApplicationStartupComplete { args });
    assert(auto_start_actions(tables, args) =~= Seq::<ActionView>::empty());
    assert(startup_actions(tables, args) =~= visibility_actions(tables, args) + tray_actions(tables)
        + specified_actions(tables, args));
}

} // verus!
