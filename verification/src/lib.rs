//! Launcher descriptors that turn a web address into a desktop application
//! shortcut bound to an installed browser.

pub mod app_dirs;
pub mod app_id;
pub mod assets;
pub mod browsers;
pub mod category;
pub mod config;
pub mod desktop_entry;
pub mod desktop_file;
pub mod error;
pub mod icon_search;
pub mod key;
pub mod laws;
pub mod paths;
pub mod template;
pub mod text;
pub mod version;
pub mod web_url;
