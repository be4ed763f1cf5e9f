//! The application's own names and version, as the program that uses the
//! library states them.

use vstd::prelude::*;

verus! {

/// Names and version of the application.
#[derive(Debug)]
pub struct Config {
    /// The reverse-domain identifier of the application.
    pub app_id: String,
    /// The name shown to the user.
    pub app_name: String,
    /// The short name that marks the files the application writes.
    pub app_name_short: String,
    /// The name with hyphens, used for directories.
    pub app_name_hyphen: String,
    /// The version of the application, as text.
    pub version: String,
}

} // verus!
