//! The event catalogue: each event kind with its name and its payload.

use vstd::prelude::*;
use crate::events::Event;

verus! {

/// The texts of a run of strings.
pub open spec fn texts(strings: Seq<String>) -> Seq<Seq<char>> {
    strings.map_values(|s: String| s@)
}

/// A copy of `strings`.
pub fn clone_strings(strings: &Vec<String>) -> (copy: Vec<String>)
    ensures
        texts(copy@) == texts(strings@),
{
    let n = strings.len();
    let mut copy: Vec<String> = Vec::new();
    let mut i: usize = 0;
    while i < n
        invariant
            n == strings.len(),
            i <= n,
            copy.len() == i,
            forall|k: int| 0 <= k < i ==> (#[trigger] copy@[k])@ == strings@[k]@,
        decreases n - i,
    {
        copy.push(strings[i].clone());
        i = i + 1;
    }
    proof {
        assert(texts(copy@) =~= texts(strings@));
    }
    copy
}

/// Launchers were launched.
pub struct LauncherLaunched;

/// Payload of `LauncherLaunched`.
#[derive(Clone, Debug, PartialEq, Eq)]
pub struct LauncherLaunchedPayload {
    /// The launchers that were launched.
    pub launcher_ids: Vec<i64>,
}

impl Event for LauncherLaunched {
    type Payload = LauncherLaunchedPayload;

    open spec fn spec_name() -> Seq<char> {
        "launcher:launched"@
    }

    fn name() -> (name: &'static str) {
        "launcher:launched"
    }
}

/// The application has finished starting.
pub struct ApplicationStartupComplete;

/// Payload of `ApplicationStartupComplete`.
#[derive(Clone, Debug, PartialEq, Eq)]
pub struct ApplicationStartupCompletePayload {
    /// The arguments that the process was started with.
    pub args: Vec<String>,
}

impl Event for ApplicationStartupComplete {
    type Payload = ApplicationStartupCompletePayload;

    open spec fn spec_name() -> Seq<char> {
        "application:startup_complete"@
    }

    fn name() -> (name: &'static str) {
        "application:startup_complete"
    }
}

/// Name, order or existence of launchers changed.
pub struct LauncherBasicInfoUpdated;

/// Payload of `LauncherBasicInfoUpdated`.
#[derive(Clone, Debug, PartialEq, Eq)]
pub struct LauncherBasicInfoUpdatedPayload {
    /// The launchers that the change was about.
    pub launcher_ids: Vec<i64>,
}

impl Event for LauncherBasicInfoUpdated {
    type Payload = LauncherBasicInfoUpdatedPayload;

    open spec fn spec_name() -> Seq<char> {
        "launcher:basic_info_updated"@
    }

    fn name() -> (name: &'static str) {
        "launcher:basic_info_updated"
    }
}

/// A setting was saved.
pub struct SettingUpdated;

/// Payload of `SettingUpdated`.
#[derive(Clone, Debug, PartialEq, Eq)]
pub struct SettingUpdatedPayload {
    pub key: String,
    pub value: String,
}

impl Event for SettingUpdated {
    type Payload = SettingUpdatedPayload;

    open spec fn spec_name() -> Seq<char> {
        "setting:updated"@
    }

    fn name() -> (name: &'static str) {
        "setting:updated"
    }
}

/// Files or links were dropped on the window.
pub struct DragDropResource;

/// Payload of `DragDropResource`.
#[derive(Clone, Debug, PartialEq, Eq)]
pub struct DragDropResourcePayload {
    /// The paths that were dropped.
    pub paths: Vec<String>,
}

impl Event for DragDropResource {
    type Payload = DragDropResourcePayload;

    open spec fn spec_name() -> Seq<char> {
        "resource:drag_drop"@
    }

    fn name() -> (name: &'static str) {
        "resource:drag_drop"
    }
}

} // verus!
