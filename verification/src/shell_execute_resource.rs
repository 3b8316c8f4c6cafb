//! A resource of any kind that the shell opens.

use vstd::prelude::*;
use crate::error::OneClickLaunchError;
use crate::resource::{
    ExecutableResource, Resource, ResourceLocation, ResourceLocationView, ResourceType,
    clone_location, location_view,
};

verus! {

/// A resource with its kind, its location and the location of its icon.
#[derive(Debug)]
pub struct ShellExecuteResource {
    name: String,
    path: Option<ResourceLocation>,
    icon: Option<ResourceLocation>,
    resource_type: ResourceType,
}

impl ShellExecuteResource {
    /// A resource called `name` of the kind `resource_type`.
    pub fn new(
        name: String,
        path: Option<ResourceLocation>,
        icon: Option<ResourceLocation>,
        resource_type: ResourceType,
    ) -> (resource: Self)
        ensures
            resource.spec_name() == name@,
            resource.spec_path() == location_view(path),
            resource.spec_icon() == location_view(icon),
            resource.spec_resource_type() == resource_type,
    {
        ShellExecuteResource { name, path, icon, resource_type }
    }

    /// What to hand to the shell to open the resource: its location, or
    /// `InvalidArgument` where it has none.
    pub fn execute_resource(&self) -> (request: Result<ResourceLocation, OneClickLaunchError>)
        ensures
            match request {
                Ok(location) => self.spec_path() == Some(location@),
                Err(e) => self.spec_path() is None && e == OneClickLaunchError::InvalidArgument,
            },
    {
        match self.path() {
            Some(location) => Ok(location),
            None => Err(OneClickLaunchError::InvalidArgument),
        }
    }
}

impl Resource for ShellExecuteResource {
    closed spec fn spec_name(&self) -> Seq<char> {
        self.name@
    }

    closed spec fn spec_path(&self) -> Option<ResourceLocationView> {
        location_view(self.path)
    }

    closed spec fn spec_icon(&self) -> Option<ResourceLocationView> {
        location_view(self.icon)
    }

    closed spec fn spec_resource_type(&self) -> ResourceType {
        self.resource_type
    }

    fn name(&self) -> (name: &str) {
        self.name.as_str()
    }

    fn path(&self) -> (path: Option<ResourceLocation>) {
        clone_location(&self.path)
    }

    fn icon(&self) -> (icon: Option<ResourceLocation>) {
        clone_location(&self.icon)
    }

    fn resource_type(&self) -> (kind: ResourceType) {
        self.resource_type
    }
}

impl ExecutableResource for ShellExecuteResource {
    fn execute(&self) -> (request: Result<ResourceLocation, OneClickLaunchError>) {
        self.execute_resource()
    }
}

} // verus!
