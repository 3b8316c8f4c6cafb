use vstd::prelude::*;
use crate::resource::{
    Resource, ResourceLocation, ResourceLocationView, ResourceType, clone_location,
    location_view,
};

verus! {

/// The web location of an address that may be missing.
pub open spec fn url_location(url: Option<String>) -> Option<ResourceLocationView> {
    match url {
        Some(url) => Some(ResourceLocationView::WebUrl(url@)),
        None => None,
    }
}

/// A web page.
#[derive(Debug)]
pub struct WebPage {
    name: String,
    url: Option<String>,
    icon_path: Option<ResourceLocation>,
}

impl WebPage {
    /// A web page called `name`, with its address and the location of its
    /// icon, where they are known.
    pub fn new(name: String, url: Option<String>, icon_path: Option<ResourceLocation>) -> (page:
        WebPage)
        ensures
            page.spec_name() == name@,
            page.spec_path() == url_location(url),
            page.spec_icon() == location_view(icon_path),
            page.spec_resource_type() == ResourceType::WebPage,
    {
        Self { name, url, icon_path }
    }
}

impl Resource for WebPage {
    closed spec fn spec_name(&self) -> Seq<char> {
        self.name@
    }

    closed spec fn spec_path(&self) -> Option<ResourceLocationView> {
        url_location(self.url)
    }

    closed spec fn spec_icon(&self) -> Option<ResourceLocationView> {
        location_view(self.icon_path)
    }

    open spec fn spec_resource_type(&self) -> ResourceType {
        ResourceType::WebPage
    }

    fn name(&self) -> (name: &str) {
        self.name.as_str()
    }

    fn path(&self) -> (path: Option<ResourceLocation>) {
        match &self.url {
            Some(url) => Some(ResourceLocation::from_url(url.as_str())),
            None => None,
        }
    }

    fn icon(&self) -> (icon: Option<ResourceLocation>) {
        clone_location(&self.icon_path)
    }

    fn resource_type(&self) -> (kind: ResourceType) {
        ResourceType::WebPage
    }
}

} // verus!
