//! The directories that the application works in, derived from the user's
//! base directories. Nothing here touches the file system: the paths are
//! computed, and `required_directories` lists those that have to exist.

use vstd::prelude::*;
use vstd::string::*;
use crate::config::Config;
use crate::paths::{join, joined};
use crate::text::texts;

verus! {

/// The directories of the application.
#[derive(Debug)]
pub struct AppDirs {
    pub user_home: String,
    pub app_data: String,
    pub app_config: String,
    pub system_data: Vec<String>,
    pub user_data: String,
    pub user_config: String,
    pub system_icons: Vec<String>,
    pub user_applications: String,
    pub app_data_profiles: String,
    pub app_data_icons: String,
    pub app_config_browser_configs: String,
    pub app_config_browser_desktop_files: String,
    pub user_flatpak: String,
}

impl AppDirs {
    /// Every derived directory is where the base directories put it.
    pub open spec fn wf(&self, config: &Config) -> bool {
        &&& self.app_data@ == joined(self.user_data@, config.app_name_hyphen@)
        &&& self.app_config@ == joined(self.user_config@, config.app_name_hyphen@)
        &&& self.user_applications@ == joined(self.user_data@, "applications"@)
        &&& self.app_data_profiles@ == joined(self.app_data@, "profiles"@)
        &&& self.app_data_icons@ == joined(self.app_data@, "icons"@)
        &&& self.app_config_browser_configs@ == joined(self.app_config@, "browsers"@)
        &&& self.app_config_browser_desktop_files@ == joined(self.app_config@, "desktop-files"@)
        &&& self.user_flatpak@ == joined(joined(self.user_home@, ".var"@), "app"@)
    }

    /// The directories of the application under the given base directories.
    /// `system_icons` holds those of `build_system_icon_paths(&system_data)`
    /// that exist.
    pub fn new(
        config: &Config,
        user_home: &str,
        user_data: &str,
        user_config: &str,
        system_data: Vec<String>,
        system_icons: Vec<String>,
    ) -> (r: AppDirs)
        ensures
            r.wf(config),
            r.user_home@ == user_home@,
            r.user_data@ == user_data@,
            r.user_config@ == user_config@,
            r.system_data == system_data,
            r.system_icons == system_icons,
    {
        let app_data = join(user_data, config.app_name_hyphen.as_str());
        let app_config = join(user_config, config.app_name_hyphen.as_str());
        let user_applications = Self::build_applications_path(user_data);
        let app_data_profiles = Self::build_profiles_path(app_data.as_str());
        let app_data_icons = Self::build_icons_path(app_data.as_str());
        let app_config_browser_configs = Self::build_browser_configs_path(app_config.as_str());
        let app_config_browser_desktop_files = Self::build_browser_desktop_files_path(
            app_config.as_str(),
        );
        let user_flatpak = Self::build_flatpak_path(user_home);
        AppDirs {
            user_home: String::from_str(user_home),
            app_data,
            app_config,
            system_data,
            user_data: String::from_str(user_data),
            user_config: String::from_str(user_config),
            system_icons,
            user_applications,
            app_data_profiles,
            app_data_icons,
            app_config_browser_configs,
            app_config_browser_desktop_files,
            user_flatpak,
        }
    }

    /// For each system data directory, the directory `icons` in it, in the
    /// same order. Which of them exist is for the caller to find out.
    pub fn build_system_icon_paths(system_data: &Vec<String>) -> (r: Vec<String>)
        ensures
            r@.len() == system_data@.len(),
            forall|i: int|
                0 <= i < r@.len() ==> (#[trigger] r@[i])@ == joined(system_data@[i]@, "icons"@),
    {
        let mut out: Vec<String> = Vec::new();
        let mut i: usize = 0;
        while i < system_data.len()
            invariant
                i <= system_data@.len(),
                out@.len() == i,
                forall|j: int|
                    0 <= j < i ==> (#[trigger] out@[j])@ == joined(system_data@[j]@, "icons"@),
            decreases system_data@.len() - i,
        {
            out.push(join(system_data[i].as_str(), "icons"));
            i += 1;
        }
        out
    }

    /// The directory of the user's launchers.
    pub fn build_applications_path(user_data: &str) -> (r: String)
        ensures
            r@ == joined(user_data@, "applications"@),
    {
        join(user_data, "applications")
    }

    /// The directory of the isolated profiles.
    pub fn build_profiles_path(app_data: &str) -> (r: String)
        ensures
            r@ == joined(app_data@, "profiles"@),
    {
        join(app_data, "profiles")
    }

    /// The directory of the icons.
    pub fn build_icons_path(app_data: &str) -> (r: String)
        ensures
            r@ == joined(app_data@, "icons"@),
    {
        join(app_data, "icons")
    }

    /// The directory of the browser definitions.
    pub fn build_browser_configs_path(app_config: &str) -> (r: String)
        ensures
            r@ == joined(app_config@, "browsers"@),
    {
        join(app_config, "browsers")
    }

    /// The directory of the browser templates.
    pub fn build_browser_desktop_files_path(app_config: &str) -> (r: String)
        ensures
            r@ == joined(app_config@, "desktop-files"@),
    {
        join(app_config, "desktop-files")
    }

    /// The directory in which sandboxed applications keep their data.
    pub fn build_flatpak_path(home: &str) -> (r: String)
        ensures
            r@ == joined(joined(home@, ".var"@), "app"@),
    {
        let var = join(home, ".var");
        join(var.as_str(), "app")
    }

    /// The directories that have to exist before the application works:
    /// the launchers, the profiles, the icons, the browser definitions and
    /// the browser templates, in this order.
    pub fn required_directories(&self) -> (r: Vec<String>)
        ensures
            texts(r@) == seq![
                self.user_applications@,
                self.app_data_profiles@,
                self.app_data_icons@,
                self.app_config_browser_configs@,
                self.app_config_browser_desktop_files@,
            ],
    {
        let mut out: Vec<String> = Vec::new();
        out.push(self.user_applications.clone());
        out.push(self.app_data_profiles.clone());
        out.push(self.app_data_icons.clone());
        out.push(self.app_config_browser_configs.clone());
        out.push(self.app_config_browser_desktop_files.clone());
        assert(texts(out@) =~= seq![
            self.user_applications@,
            self.app_data_profiles@,
            self.app_data_icons@,
            self.app_config_browser_configs@,
            self.app_config_browser_desktop_files@,
        ]);
        out
    }
}

} // verus!
