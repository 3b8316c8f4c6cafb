//! Finding the icon of a shortcut.

use vstd::prelude::*;
use crate::error::OneClickLaunchError;
use crate::program_link::Shortcut;
use crate::resource::text_view;
use crate::text::{has_suffix, str_equal};

verus! {

/// The icon that is configured for the program called `name`.
pub open spec fn default_icon(name: Seq<char>) -> Option<Seq<char>> {
    if name == "demo"@ {
        Some("/dev/null"@)
    } else {
        None
    }
}

/// The icon that is configured for the program called `program_name`.
pub fn find_default_icon_by_program_name(program_name: &str) -> (icon: Option<String>)
    ensures
        text_view(icon) == default_icon(program_name@),
{
    if str_equal(program_name, "demo") {
        Some("/dev/null".to_owned())
    } else {
        None
    }
}

/// Whether the shortcut names an icon file of its own.
pub open spec fn own_icon(icon_location: Option<Seq<char>>) -> Option<Seq<char>> {
    match icon_location {
        Some(location) => if ".ico"@.is_suffix_of(location) {
            Some(location)
        } else {
            None
        },
        None => None,
    }
}

/// The icon of a shortcut: the icon file that the shortcut names; else
/// the first of the icon files found in its working directory, where it
/// has one; else the icon configured for the program's name.
pub open spec fn resolved_icon(
    name: Seq<char>,
    icon_location: Option<Seq<char>>,
    working_dir: Option<Seq<char>>,
    icons_in_working_dir: Seq<Seq<char>>,
) -> Option<Seq<char>> {
    if own_icon(icon_location) is Some {
        own_icon(icon_location)
    } else if working_dir is Some && icons_in_working_dir.len() > 0 {
        Some(icons_in_working_dir[0])
    } else {
        default_icon(name)
    }
}

/// The icon of `shortcut`, given the icon files that were found in its
/// working directory (none where it has no working directory). Fails with
/// `NotFound` where no icon can be told.
pub fn resolve_icon(shortcut: &Shortcut, icons_in_working_dir: &Vec<String>) -> (icon: Result<
    String,
    OneClickLaunchError,
>)
    ensures
        match icon {
            Ok(path) => Some(path@) == resolved_icon(
                shortcut.name@,
                text_view(shortcut.icon_location),
                text_view(shortcut.working_dir),
                icons_in_working_dir@.map_values(|s: String| s@),
            ),
            Err(e) => e == OneClickLaunchError::NotFound && resolved_icon(
                shortcut.name@,
                text_view(shortcut.icon_location),
                text_view(shortcut.working_dir),
                icons_in_working_dir@.map_values(|s: String| s@),
            ) is None,
        },
{
    match &shortcut.icon_location {
        Some(location) => {
            if has_suffix(location.as_str(), ".ico") {
                return Ok(location.clone());
            }
        },
        None => {},
    }
    if shortcut.working_dir.is_some() && icons_in_working_dir.len() > 0 {
        return Ok(icons_in_working_dir[0].clone());
    }
    match find_default_icon_by_program_name(shortcut.name.as_str()) {
        Some(path) => Ok(path),
        None => Err(OneClickLaunchError::NotFound),
    }
}

} // verus!
