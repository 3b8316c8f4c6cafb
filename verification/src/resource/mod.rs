//! Launchable resources by kind: applications, shortcuts, files and web
//! pages.

pub mod application;
pub mod file;
pub mod shortcut;
pub mod web_page;

use vstd::prelude::*;
use crate::error::OneClickLaunchError;

verus! {

/// The kind of a resource.
#[derive(Clone, Copy, Debug, PartialEq, Eq, Structural)]
pub enum ResourceType {
    Application,
    Shortcut,
    WebPage,
    Folder,
    File,
}

/// Where a resource lies: a path in the file system or a web address.
#[derive(Debug, PartialEq, Eq)]
pub enum ResourceLocation {
    FilePath(String),
    WebUrl(String),
}

/// The mathematical value of a `ResourceLocation`.
pub enum ResourceLocationView {
    FilePath(Seq<char>),
    WebUrl(Seq<char>),
}

impl View for ResourceLocation {
    type V = ResourceLocationView;

    open spec fn view(&self) -> ResourceLocationView {
        match self {
            ResourceLocation::FilePath(path) => ResourceLocationView::FilePath(path@),
            ResourceLocation::WebUrl(url) => ResourceLocationView::WebUrl(url@),
        }
    }
}

impl Clone for ResourceLocation {
    fn clone(&self) -> (copy: Self)
        ensures
            copy@ == self@,
    {
        match self {
            ResourceLocation::FilePath(path) => ResourceLocation::FilePath(path.clone()),
            ResourceLocation::WebUrl(url) => ResourceLocation::WebUrl(url.clone()),
        }
    }
}

impl ResourceLocation {
    /// The location of a file.
    pub fn from_path(path: &str) -> (location: ResourceLocation)
        ensures
            location@ == ResourceLocationView::FilePath(path@),
    {
        ResourceLocation::FilePath(path.to_owned())
    }

    /// The location of a web page.
    pub fn from_url(url: &str) -> (location: ResourceLocation)
        ensures
            location@ == ResourceLocationView::WebUrl(url@),
    {
        ResourceLocation::WebUrl(url.to_owned())
    }

    /// The text that is handed to the shell to open the location.
    pub fn target(&self) -> (text: &str)
        ensures
            text@ == spec_target(self@),
    {
        match self {
            ResourceLocation::FilePath(path) => path.as_str(),
            ResourceLocation::WebUrl(url) => url.as_str(),
        }
    }
}

/// The text that is handed to the shell to open `location`.
pub open spec fn spec_target(location: ResourceLocationView) -> Seq<char> {
    match location {
        ResourceLocationView::FilePath(path) => path,
        ResourceLocationView::WebUrl(url) => url,
    }
}

/// The value of a location that may be missing.
pub open spec fn location_view(location: Option<ResourceLocation>) -> Option<ResourceLocationView> {
    match location {
        Some(location) => Some(location@),
        None => None,
    }
}

/// The text of a string that may be missing.
pub open spec fn text_view(text: Option<String>) -> Option<Seq<char>> {
    match text {
        Some(text) => Some(text@),
        None => None,
    }
}

/// The file location of a path that may be missing.
pub open spec fn path_location(path: Option<String>) -> Option<ResourceLocationView> {
    match path {
        Some(path) => Some(ResourceLocationView::FilePath(path@)),
        None => None,
    }
}

/// The file location of `path`, where there is one.
pub fn locate_path(path: &Option<String>) -> (location: Option<ResourceLocation>)
    ensures
        location_view(location) == path_location(*path),
{
    match path {
        Some(path) => Some(ResourceLocation::from_path(path.as_str())),
        None => None,
    }
}

/// A copy of a location that may be missing.
pub fn clone_location(location: &Option<ResourceLocation>) -> (copy: Option<ResourceLocation>)
    ensures
        location_view(copy) == location_view(*location),
{
    match location {
        Some(location) => Some(location.clone()),
        None => None,
    }
}

/// What every resource tells of itself.
pub trait Resource {
    spec fn spec_name(&self) -> Seq<char>;

    spec fn spec_path(&self) -> Option<ResourceLocationView>;

    spec fn spec_icon(&self) -> Option<ResourceLocationView>;

    spec fn spec_resource_type(&self) -> ResourceType;

    /// The name of the resource.
    fn name(&self) -> (name: &str)
        ensures
            name@ == self.spec_name(),
    ;

    /// Where the resource lies.
    fn path(&self) -> (path: Option<ResourceLocation>)
        ensures
            location_view(path) == self.spec_path(),
    ;

    /// Where the icon of the resource lies.
    fn icon(&self) -> (icon: Option<ResourceLocation>)
        ensures
            location_view(icon) == self.spec_icon(),
    ;

    /// The kind of the resource.
    fn resource_type(&self) -> (kind: ResourceType)
        ensures
            kind == self.spec_resource_type(),
    ;
}

/// A resource that the shell can open.
pub trait ExecutableResource: Resource {
    /// What to hand to the shell to open the resource: its location, or
    /// `InvalidArgument` where it has none.
    fn execute(&self) -> (request: Result<ResourceLocation, OneClickLaunchError>)
        ensures
            match request {
                Ok(location) => self.spec_path() == Some(location@),
                Err(e) => self.spec_path() is None && e == OneClickLaunchError::InvalidArgument,
            },
    {
        match self.path() {
            Some(location) => Ok(location),
            None => Err(OneClickLaunchError::InvalidArgument),
        }
    }
}

/// What the status that the shell returned for an open request means: a
/// status above 32 is success, any other is a failure to launch.
pub fn shell_execute_result(status: isize) -> (outcome: Result<(), OneClickLaunchError>)
    ensures
        outcome is Ok <==> status > 32,
        outcome is Err ==> outcome == Err::<(), OneClickLaunchError>(
            OneClickLaunchError::ExternalOperationFailed,
        ),
{
    if status > 32 {
        Ok(())
    } else {
        Err(OneClickLaunchError::ExternalOperationFailed)
    }
}

/// A resource of any kind, as a provider hands it out.
#[derive(Clone, Debug, PartialEq, Eq)]
pub struct GenericResource {
    pub name: String,
    pub path: Option<ResourceLocation>,
    pub icon: Option<ResourceLocation>,
    pub resource_type: ResourceType,
}

/// The mathematical value of a `GenericResource`.
pub struct GenericResourceView {
    pub name: Seq<char>,
    pub path: Option<ResourceLocationView>,
    pub icon: Option<ResourceLocationView>,
    pub resource_type: ResourceType,
}

impl View for GenericResource {
    type V = GenericResourceView;

    open spec fn view(&self) -> GenericResourceView {
        GenericResourceView {
            name: self.name@,
            path: location_view(self.path),
            icon: location_view(self.icon),
            resource_type: self.resource_type,
        }
    }
}

/// The values of a run of resources.
pub open spec fn generic_views(resources: Seq<GenericResource>) -> Seq<GenericResourceView> {
    resources.map_values(|resource: GenericResource| resource@)
}

} // verus!
