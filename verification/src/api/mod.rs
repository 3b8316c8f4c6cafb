//! The command surface: what the user interface can ask of the library.

pub mod launcher_api;
pub mod setting_api;
pub mod window_api;
