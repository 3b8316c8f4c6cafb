use vstd::prelude::*;
use crate::resource::{
    ExecutableResource, Resource, ResourceLocation, ResourceLocationView, ResourceType,
    clone_location, locate_path, location_view, path_location,
};

verus! {

/// A file that opens with the program that the system has for it.
#[derive(Debug)]
pub struct LaunchFile {
    name: String,
    file_path: Option<String>,
    icon_path: Option<ResourceLocation>,
}

impl LaunchFile {
    /// A file called `name`, with its path and the location of its icon,
    /// where they are known.
    pub fn new(name: String, file_path: Option<String>, icon_path: Option<ResourceLocation>) -> (file:
        Self)
        ensures
            file.spec_name() == name@,
            file.spec_path() == path_location(file_path),
            file.spec_icon() == location_view(icon_path),
            file.spec_resource_type() == ResourceType::File,
    {
        Self { name, file_path, icon_path }
    }
}

impl Resource for LaunchFile {
    closed spec fn spec_name(&self) -> Seq<char> {
        self.name@
    }

    closed spec fn spec_path(&self) -> Option<ResourceLocationView> {
        path_location(self.file_path)
    }

    closed spec fn spec_icon(&self) -> Option<ResourceLocationView> {
        location_view(self.icon_path)
    }

    open spec fn spec_resource_type(&self) -> ResourceType {
        ResourceType::File
    }

    fn name(&self) -> (name: &str) {
        self.name.as_str()
    }

    fn path(&self) -> (path: Option<ResourceLocation>) {
        locate_path(&self.file_path)
    }

    fn icon(&self) -> (icon: Option<ResourceLocation>) {
        clone_location(&self.icon_path)
    }

    fn resource_type(&self) -> (kind: ResourceType) {
        ResourceType::File
    }
}

impl ExecutableResource for LaunchFile {

}

} // verus!
