//! What is handed to the shell to open a target: a web address in its
//! normal form, or the path as it stands.

use vstd::prelude::*;
use url::Url;
use crate::error::OneClickLaunchError;
use crate::resource::{ResourceLocation, ResourceLocationView};

verus! {

#[verifier::external_type_specification]
#[verifier::external_body]
pub struct ExUrlParseError(url::ParseError);

/// The normal form of the absolute URL that a text holds: the
/// serialization of what `Url::parse` makes of the text, or `None` where
/// it reports an error.
pub uninterp spec fn parsed_url(text: Seq<char>) -> Option<Seq<char>>;

/// Reads an absolute URL and returns its serialization. Trusted:
/// `Url::parse` of the url crate and the conversion of the parsed URL to
/// its serialization, which depend on the text alone; the contract only
/// gives that result a name.
#[verifier::external_body]
fn read_url(text: &str) -> (parsed: Result<String, url::ParseError>)
    ensures
        match parsed {
            Ok(url) => parsed_url(text@) == Some(url@),
            Err(_) => parsed_url(text@) is None,
        },
{
    Url::parse(text).map(String::from)
}

/// Where `target` lies: the web address that it parses to, or, where it
/// is no URL, the file at the path that it names.
pub open spec fn located(target: Seq<char>) -> ResourceLocationView {
    locate_parsed(target, parsed_url(target))
}

/// Where `target` lies, given what parsing it as a URL gave.
pub open spec fn locate_parsed(target: Seq<char>, parsed: Option<Seq<char>>) -> ResourceLocationView {
    match parsed {
        Some(url) => ResourceLocationView::WebUrl(url),
        None => ResourceLocationView::FilePath(target),
    }
}

/// Where `target` lies, given what parsing it as a URL gave.
pub fn locate(target: &str, parsed: Option<String>) -> (location: ResourceLocation)
    ensures
        location@ == locate_parsed(
            target@,
            match parsed {
                Some(url) => Some(url@),
                None => None,
            },
        ),
{
    match parsed {
        Some(url) => ResourceLocation::WebUrl(url),
        None => ResourceLocation::from_path(target),
    }
}

/// Something that the shell can open.
pub trait LaunchAble {
    /// Where the thing lies.
    spec fn spec_location(&self) -> ResourceLocationView;

    /// What to hand to the shell to open the thing.
    fn launch(&self) -> (request: Result<ResourceLocation, OneClickLaunchError>)
        ensures
            match request {
                Ok(location) => location@ == self.spec_location(),
                Err(_) => false,
            },
    ;
}

impl LaunchAble for str {
    open spec fn spec_location(&self) -> ResourceLocationView {
        located(self@)
    }

    fn launch(&self) -> (request: Result<ResourceLocation, OneClickLaunchError>) {
        let parsed = match read_url(self) {
            Ok(url) => Some(url),
            Err(_) => None,
        };
        Ok(locate(self, parsed))
    }
}

impl LaunchAble for ResourceLocation {
    open spec fn spec_location(&self) -> ResourceLocationView {
        self@
    }

    fn launch(&self) -> (request: Result<ResourceLocation, OneClickLaunchError>) {
        Ok(self.clone())
    }
}

} // verus!
