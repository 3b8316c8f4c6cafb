use vstd::prelude::*;
use crate::resource::{
    ExecutableResource, Resource, ResourceLocation, ResourceLocationView, ResourceType,
    locate_path, path_location, };

verus! {

/// An application.
#[derive(Debug)]
pub struct Application {
    name: String,
    app_path: Option<String>,
    icon_path: Option<String>,
}

impl Application {
    /// An application called `name`, with the path of its program and the
    /// path of its icon, where they are known.
    pub fn new(name: String, app_path: Option<String>, icon_path: Option<String>) -> (app: Self)
        ensures
            app.spec_name() == name@,
            app.spec_path() == path_location(app_path),
            app.spec_icon() == path_location(icon_path),
            app.spec_resource_type() == ResourceType::Application,
    {
        Application { name, app_path, icon_path }
    }
}

impl Resource for Application {
    closed spec fn spec_name(&self) -> Seq<char> {
        self.name@
    }

    closed spec fn spec_path(&self) -> Option<ResourceLocationView> {
        path_location(self.app_path)
    }

    closed spec fn spec_icon(&self) -> Option<ResourceLocationView> {
        path_location(self.icon_path)
    }

    open spec fn spec_resource_type(&self) -> ResourceType {
        ResourceType::Application
    }

    fn name(&self) -> (name: &str) {
        self.name.as_str()
    }

    fn path(&self) -> (path: Option<ResourceLocation>) {
        locate_path(&self.app_path)
    }

    fn icon(&self) -> (icon: Option<ResourceLocation>) {
        locate_path(&self.icon_path)
    }

    fn resource_type(&self) -> (kind: ResourceType) {
        ResourceType::Application
    }
}

impl ExecutableResource for Application {

}

} // verus!
