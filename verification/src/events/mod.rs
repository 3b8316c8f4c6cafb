//! The event bus: typed events, published to the listeners that were
//! registered for their kind.

pub mod system_listeners;
pub mod types;

use vstd::prelude::*;
use crate::events::types::{
    ApplicationStartupComplete, ApplicationStartupCompletePayload, DragDropResource,
    DragDropResourcePayload, LauncherBasicInfoUpdated, LauncherBasicInfoUpdatedPayload,
    LauncherLaunched, LauncherLaunchedPayload, SettingUpdated, SettingUpdatedPayload, texts,
};

verus! {

/// An event kind: a fixed name and the type of its payload.
pub trait Event {
    type Payload;

    /// The name under which the event travels.
    spec fn spec_name() -> Seq<char>;

    fn name() -> (name: &'static str)
        ensures
            name@ == Self::spec_name(),
    ;
}

/// The kinds of event that the bus carries.
#[derive(Clone, Copy, Debug, PartialEq, Eq, Structural)]
pub enum EventKind {
    LauncherLaunched,
    LauncherBasicInfoUpdated,
    SettingUpdated,
    ApplicationStartupComplete,
    DragDropResource,
}

impl EventKind {
    /// The name of the kind.
    pub open spec fn spec_name(self) -> Seq<char> {
        match self {
            EventKind::LauncherLaunched => LauncherLaunched::spec_name(),
            EventKind::LauncherBasicInfoUpdated => LauncherBasicInfoUpdated::spec_name(),
            EventKind::SettingUpdated => SettingUpdated::spec_name(),
            EventKind::ApplicationStartupComplete => ApplicationStartupComplete::spec_name(),
            EventKind::DragDropResource => DragDropResource::spec_name(),
        }
    }

    pub fn name(&self) -> (name: &'static str)
        ensures
            name@ == self.spec_name(),
    {
        match self {
            EventKind::LauncherLaunched => LauncherLaunched::name(),
            EventKind::LauncherBasicInfoUpdated => LauncherBasicInfoUpdated::name(),
            EventKind::SettingUpdated => SettingUpdated::name(),
            EventKind::ApplicationStartupComplete => ApplicationStartupComplete::name(),
            EventKind::DragDropResource => DragDropResource::name(),
        }
    }
}

/// One event with its payload. Each kind carries the payload of its own
/// type and no other.
#[derive(Clone, Debug, PartialEq, Eq)]
pub enum EventMessage {
    LauncherLaunched(LauncherLaunchedPayload),
    LauncherBasicInfoUpdated(LauncherBasicInfoUpdatedPayload),
    SettingUpdated(SettingUpdatedPayload),
    ApplicationStartupComplete(ApplicationStartupCompletePayload),
    DragDropResource(DragDropResourcePayload),
}

/// The mathematical value of an `EventMessage`.
pub enum EventMessageView {
    LauncherLaunched { launcher_ids: Seq<i64> },
    LauncherBasicInfoUpdated { launcher_ids: Seq<i64> },
    SettingUpdated { key: Seq<char>, value: Seq<char> },
    ApplicationStartupComplete { args: Seq<Seq<char>> },
    DragDropResource { paths: Seq<Seq<char>> },
}

impl EventMessageView {
    /// The kind of the event.
    pub open spec fn kind(self) -> EventKind {
        match self {
            EventMessageView::LauncherLaunched { .. } => EventKind::LauncherLaunched,
            EventMessageView::LauncherBasicInfoUpdated { .. } => EventKind::LauncherBasicInfoUpdated,
            EventMessageView::SettingUpdated { .. } => EventKind::SettingUpdated,
            EventMessageView::ApplicationStartupComplete { .. } => EventKind::ApplicationStartupComplete,
            EventMessageView::DragDropResource { .. } => EventKind::DragDropResource,
        }
    }
}

impl View for EventMessage {
    type V = EventMessageView;

    open spec fn view(&self) -> EventMessageView {
        match self {
            EventMessage::LauncherLaunched(p) => EventMessageView::LauncherLaunched {
                launcher_ids: p.launcher_ids@,
            },
            EventMessage::LauncherBasicInfoUpdated(p) => EventMessageView::LauncherBasicInfoUpdated {
                launcher_ids: p.launcher_ids@,
            },
            EventMessage::SettingUpdated(p) => EventMessageView::SettingUpdated {
                key: p.key@,
                value: p.value@,
            },
            EventMessage::ApplicationStartupComplete(p) => EventMessageView::ApplicationStartupComplete {
                args: texts(p.args@),
            },
            EventMessage::DragDropResource(p) => EventMessageView::DragDropResource {
                paths: texts(p.paths@),
            },
        }
    }
}

impl EventMessage {
    /// The kind of the event.
    pub fn kind(&self) -> (kind: EventKind)
        ensures
            kind == self@.kind(),
    {
        match self {
            EventMessage::LauncherLaunched(_) => EventKind::LauncherLaunched,
            EventMessage::LauncherBasicInfoUpdated(_) => EventKind::LauncherBasicInfoUpdated,
            EventMessage::SettingUpdated(_) => EventKind::SettingUpdated,
            EventMessage::ApplicationStartupComplete(_) => EventKind::ApplicationStartupComplete,
            EventMessage::DragDropResource(_) => EventKind::DragDropResource,
        }
    }

    /// The name under which the event travels.
    pub fn name(&self) -> (name: &'static str)
        ensures
            name@ == self@.kind().spec_name(),
    {
        self.kind().name()
    }
}

/// A listener registered for a kind of event. The listeners are a closed
/// set: each is one of the application's own.
#[derive(Clone, Copy, Debug, PartialEq, Eq, Structural)]
pub struct Subscription {
    pub kind: EventKind,
    pub listener: SystemListener,
}

/// The application's listeners, each made for the payload of one kind of
/// event.
#[derive(Clone, Copy, Debug, PartialEq, Eq, Structural)]
pub enum SystemListener {
    /// Hides the window and ends the process after a launch.
    LauncherLaunched,
    /// Rebuilds the tray menu.
    LauncherBasicInfoUpdated,
    /// Sequences the end of startup.
    ApplicationStartupComplete,
    /// Applies a saved theme.
    SettingUpdated,
}

/// The registry of listeners. Listeners stay registered for the lifetime
/// of the registry; there is no way to take one out.
pub struct EventSystem {
    subscriptions: Vec<Subscription>,
}

impl View for EventSystem {
    type V = Seq<Subscription>;

    closed spec fn view(&self) -> Seq<Subscription> {
        self.subscriptions@
    }
}

impl EventSystem {
    /// A registry without listeners.
    pub fn new() -> (bus: EventSystem)
        ensures
            bus@ == Seq::<Subscription>::empty(),
    {
        EventSystem { subscriptions: Vec::new() }
    }

    /// Registers `listener` for the events of `kind`, behind the listeners
    /// registered before.
    pub fn register_listener(&mut self, kind: EventKind, listener: SystemListener)
        ensures
            final(self)@ == old(self)@.push(Subscription { kind, listener }),
    {
        self.subscriptions.push(Subscription { kind, listener });
    }

    /// The number of registered listeners.
    pub fn len(&self) -> (n: usize)
        ensures
            n == self@.len(),
    {
        self.subscriptions.len()
    }

    /// The listener registered at place `i`.
    pub fn subscription(&self, i: usize) -> (found: Subscription)
        requires
            i < self@.len(),
        ensures
            found == self@[i as int],
    {
        self.subscriptions[i]
    }
}

} // verus!
