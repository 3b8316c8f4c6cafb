use vstd::prelude::*;
use crate::resource::{
    ExecutableResource, Resource, ResourceLocation, ResourceLocationView, ResourceType,
    locate_path, path_location, text_view,
};

verus! {

/// A shortcut to a program.
#[derive(Debug)]
pub struct Shortcut {
    name: String,
    /// Where the shortcut file lies.
    shortcut_path: Option<String>,
    /// Where the program lies.
    target_path: Option<String>,
    /// The directory in which the program starts.
    working_dir_path: Option<String>,
    /// Where the icon lies.
    icon_path: Option<String>,
}

impl Shortcut {
    /// A shortcut called `name`. It is opened through the shortcut file,
    /// not through its target.
    pub fn new(
        name: String,
        shortcut_path: Option<String>,
        target_path: Option<String>,
        working_dir_path: Option<String>,
        icon_path: Option<String>,
    ) -> (shortcut: Self)
        ensures
            shortcut.spec_name() == name@,
            shortcut.spec_path() == path_location(shortcut_path),
            shortcut.spec_icon() == path_location(icon_path),
            shortcut.spec_resource_type() == ResourceType::Shortcut,
            shortcut.spec_target_path() == text_view(target_path),
            shortcut.spec_working_dir() == text_view(working_dir_path),
    {
        Self { name, shortcut_path, target_path, working_dir_path, icon_path }
    }

    /// Where the program of the shortcut lies.
    pub closed spec fn spec_target_path(&self) -> Option<Seq<char>> {
        text_view(self.target_path)
    }

    /// The directory in which the program of the shortcut starts.
    pub closed spec fn spec_working_dir(&self) -> Option<Seq<char>> {
        text_view(self.working_dir_path)
    }
}

impl Resource for Shortcut {
    closed spec fn spec_name(&self) -> Seq<char> {
        self.name@
    }

    closed spec fn spec_path(&self) -> Option<ResourceLocationView> {
        path_location(self.shortcut_path)
    }

    closed spec fn spec_icon(&self) -> Option<ResourceLocationView> {
        path_location(self.icon_path)
    }

    open spec fn spec_resource_type(&self) -> ResourceType {
        ResourceType::Shortcut
    }

    fn name(&self) -> (name: &str) {
        self.name.as_str()
    }

    fn path(&self) -> (path: Option<ResourceLocation>) {
        locate_path(&self.shortcut_path)
    }

    fn icon(&self) -> (icon: Option<ResourceLocation>) {
        locate_path(&self.icon_path)
    }

    fn resource_type(&self) -> (kind: ResourceType) {
        ResourceType::Shortcut
    }
}

impl ExecutableResource for Shortcut {

}

} // verus!
