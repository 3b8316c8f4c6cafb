//! Launcher groups, their resources and settings, kept in a transactional
//! store, together with the event-driven decisions that keep the window, the
//! tray menu and the process lifecycle in step with that store.
//!
//! The library decides and never acts: commands and listeners change the
//! store and hand back `Action`s, which the shell around the library
//! performs in order.

pub mod action;
pub mod api;
pub mod constants;
pub mod db;
pub mod error;
pub mod events;
pub mod launcher;
pub mod program_link;
pub mod resource;
pub mod resource_provider;
pub mod seqs;
pub mod shell_execute_resource;
pub mod text;
pub mod utils;

pub use crate::db::DatabaseManager;

use vstd::prelude::*;
use crate::action::{Action, ActionView, action_views, push_action};
use crate::api::launcher_api::{launch_actions, launch_in};
use crate::db::TablesView;
use crate::events::{EventMessage, EventMessageView, EventSystem};
use crate::events::system_listeners::{
    launcher_to_launch, register_system_listeners, requested_launcher, system_subscriptions,
};
use crate::events::types::{ApplicationStartupCompletePayload, texts};
use crate::text::str_equal;

verus! {

/// The argument that follows the first occurrence of `key` that has an
/// argument behind it.
pub open spec fn arg_value(argv: Seq<Seq<char>>, key: Seq<char>) -> Option<Seq<char>>
    decreases argv.len(),
{
    if argv.len() < 2 {
        None
    } else if argv[0] == key {
        Some(argv[1])
    } else {
        arg_value(argv.skip(1), key)
    }
}

/// `arg_value` is the argument behind the first `key` that is not the last
/// argument, and there is none exactly when no argument but the last is
/// `key`.
pub proof fn lemma_arg_value(argv: Seq<Seq<char>>, key: Seq<char>)
    ensures
        match arg_value(argv, key) {
            Some(value) => exists|i: int|
                0 <= i < argv.len() - 1 && #[trigger] argv[i] == key && value == argv[i + 1] && (
                forall|j: int| 0 <= j < i ==> #[trigger] argv[j] != key),
            None => forall|i: int| 0 <= i < argv.len() - 1 ==> #[trigger] argv[i] != key,
        },
    decreases argv.len(),
{
    if argv.len() >= 2 && argv[0] != key {
        let rest = argv.skip(1);
        lemma_arg_value(rest, key);
        match arg_value(rest, key) {
            Some(value) => {
                let i = choose|i: int|
                    0 <= i < rest.len() - 1 && #[trigger] rest[i] == key && value == rest[i + 1] && (
                    forall|j: int| 0 <= j < i ==> #[trigger] rest[j] != key);
                assert(argv[i + 1] == key && value == argv[i + 2]);
                assert forall|j: int| 0 <= j < i + 1 implies #[trigger] argv[j] != key by {
                    if j > 0 {
                        assert(rest[j - 1] != key);
                    }
                }
            },
            None => {
                assert forall|i: int| 0 <= i < argv.len() - 1 implies #[trigger] argv[i] != key by {
                    if i > 0 {
                        assert(rest[i - 1] != key);
                    }
                }
            },
        }
    } else if argv.len() >= 2 {
        assert(argv[0] == key && argv[1] == argv[0int + 1]);
    }
}

/// The argument that follows `key` among `argv`.
pub fn extract_arg_value(argv: &[String], key: &str) -> (value: Option<String>)
    ensures
        match value {
            Some(text) => arg_value(texts(argv@), key@) == Some(text@),
            None => arg_value(texts(argv@), key@) is None,
        },
{
    let ghost all = texts(argv@);
    let n = argv.len();
    let mut i: usize = 0;
    proof {
        assert(all.skip(0) =~= all);
    }
    while i < n
        invariant
            n == argv.len(),
            i <= n,
            all == texts(argv@),
            arg_value(all, key@) == arg_value(all.skip(i as int), key@),
        decreases n - i,
    {
        if i + 1 < n && str_equal(argv[i].as_str(), key) {
            proof {
                assert(all.skip(i as int)[0] == argv@[i as int]@);
                assert(all.skip(i as int)[1] == argv@[i + 1]@);
            }
            return Some(argv[i + 1].clone());
        }
        proof {
            let rest = all.skip(i as int);
            if rest.len() >= 2 {
                assert(rest[0] == argv@[i as int]@);
                assert(rest.skip(1) =~= all.skip(i + 1));
            } else {
                assert(all.skip(i + 1).len() < 2);
            }
        }
        i = i + 1;
    }
    None
}

/// Registers every listener of the application on `bus`.
pub fn register_listeners(bus: &mut EventSystem)
    ensures
        final(bus)@ == old(bus)@ + system_subscriptions(),
{
    register_system_listeners(bus);
}

/// Starts the application: registers its listeners on `bus` and returns
/// the first action, which publishes that startup is complete, with the
/// arguments of the process. What kind of start it was is then decided by
/// the listener of that event.
pub fn run(bus: &mut EventSystem, args: Vec<String>) -> (actions: Vec<Action>)
    ensures
        final(bus)@ == old(bus)@ + system_subscriptions(),
        action_views(actions@) == seq![
            ActionView::Publish {
                event: EventMessageView::ApplicationStartupComplete { args: texts(args@) },
            },
        ],
{
    register_listeners(bus);
    let mut actions: Vec<Action> = Vec::new();
    proof {
        assert(action_views(actions@) =~= Seq::<ActionView>::empty());
    }
    push_action(
        &mut actions,
        Action::Publish(
            EventMessage::ApplicationStartupComplete(ApplicationStartupCompletePayload { args }),
        ),
    );
    proof {
        assert(action_views(actions@) =~= seq![
            ActionView::Publish {
                event: EventMessageView::ApplicationStartupComplete { args: texts(args@) },
            },
        ]);
    }
    actions
}

/// What a second start of the application leads to in the running one:
/// the launcher that its arguments name is launched; without one, the
/// window is brought back from full size if it is visible, shown, and
/// given the focus.
pub open spec fn redirect_actions(tables: TablesView, argv: Seq<Seq<char>>, window_visible: bool) -> Seq<
    ActionView,
> {
    match requested_launcher(argv) {
        Some(id) => launch_actions(tables, id),
        None => if window_visible {
            seq![ActionView::UnmaximizeWindow, ActionView::ShowWindow, ActionView::FocusWindow]
        } else {
            seq![ActionView::ShowWindow, ActionView::FocusWindow]
        },
    }
}

/// Decides what the arguments of a second start lead to.
pub fn on_second_instance(db: &DatabaseManager, argv: &Vec<String>, window_visible: bool) -> (actions:
    Vec<Action>)
    requires
        db.wf(),
    ensures
        action_views(actions@) == redirect_actions(db@, texts(argv@), window_visible),
{
    match launcher_to_launch(argv) {
        Some(id) => launch_in(db.tables(), id),
        None => {
            let mut actions: Vec<Action> = Vec::new();
            proof {
                assert(action_views(actions@) =~= Seq::<ActionView>::empty());
            }
            if window_visible {
                push_action(&mut actions, Action::UnmaximizeWindow);
            }
            push_action(&mut actions, Action::ShowWindow);
            push_action(&mut actions, Action::FocusWindow);
            proof {
                assert(action_views(actions@) =~= redirect_actions(
                    db@,
                    texts(argv@),
                    window_visible,
                ));
            }
            actions
        },
    }
}

} // verus!
