//! What the library asks the shell around it to do. Listeners and commands
//! decide; the shell performs the actions in the order given.

use vstd::prelude::*;
use crate::api::window_api::{TrayMenuItem, TrayMenuItemView, WindowTheme, menu_views};
use crate::events::{EventMessage, EventMessageView};

verus! {

/// One thing for the shell to do.
#[derive(Clone, Debug, PartialEq, Eq)]
pub enum Action {
    /// Show the main window.
    ShowWindow,
    /// Hide the main window.
    HideWindow,
    /// Give the main window the focus.
    FocusWindow,
    /// Bring the main window back from the task bar.
    UnminimizeWindow,
    /// Bring the main window back from full size.
    UnmaximizeWindow,
    /// Give the main window this logical size.
    ResizeWindow { width: u32, height: u32 },
    /// Replace the tray menu by these items.
    RefreshTray(Vec<TrayMenuItem>),
    /// Open the resource with the program that the system has for it. A
    /// failure is logged and the remaining actions go on.
    OpenResource { name: String, path: String },
    /// Publish the event on the bus.
    Publish(EventMessage),
    /// Give the main window this theme.
    ChangeTheme(WindowTheme),
    /// End the process.
    Exit,
}

/// The mathematical value of an `Action`.
pub enum ActionView {
    ShowWindow,
    HideWindow,
    FocusWindow,
    UnminimizeWindow,
    UnmaximizeWindow,
    ResizeWindow { width: u32, height: u32 },
    RefreshTray { items: Seq<TrayMenuItemView> },
    OpenResource { name: Seq<char>, path: Seq<char> },
    Publish { event: EventMessageView },
    ChangeTheme { theme: WindowTheme },
    Exit,
}

impl View for Action {
    type V = ActionView;

    open spec fn view(&self) -> ActionView {
        match self {
            Action::ShowWindow => ActionView::ShowWindow,
            Action::HideWindow => ActionView::HideWindow,
            Action::FocusWindow => ActionView::FocusWindow,
            Action::UnminimizeWindow => ActionView::UnminimizeWindow,
            Action::UnmaximizeWindow => ActionView::UnmaximizeWindow,
            Action::ResizeWindow { width, height } => ActionView::ResizeWindow {
                width: *width,
                height: *height,
            },
            Action::RefreshTray(items) => ActionView::RefreshTray { items: menu_views(items@) },
            Action::OpenResource { name, path } => ActionView::OpenResource {
                name: name@,
                path: path@,
            },
            Action::Publish(event) => ActionView::Publish { event: event@ },
            Action::ChangeTheme(theme) => ActionView::ChangeTheme { theme: *theme },
            Action::Exit => ActionView::Exit,
        }
    }
}

/// The values of a run of actions.
pub open spec fn action_views(actions: Seq<Action>) -> Seq<ActionView> {
    actions.map_values(|action: Action| action@)
}

/// Moves the actions of `more` behind those of `actions`.
pub fn append_actions(actions: &mut Vec<Action>, more: Vec<Action>)
    ensures
        action_views(final(actions)@) == action_views(old(actions)@) + action_views(more@),
{
    let mut more = more;
    let ghost before = actions@;
    let ghost added = more@;
    actions.append(&mut more);
    proof {
        assert(actions@ == before + added);
        assert(action_views(actions@) =~= action_views(before) + action_views(added));
    }
}

/// Puts `action` behind `actions`.
pub fn push_action(actions: &mut Vec<Action>, action: Action)
    ensures
        action_views(final(actions)@) == action_views(old(actions)@).push(action@),
{
    let ghost before = actions@;
    actions.push(action);
    proof {
        assert(action_views(actions@) =~= action_views(before).push(action@));
    }
}

} // verus!
