use web_apps::app_dirs::AppDirs;
use web_apps::browsers::{
    Base, Browser, BrowserConfig, BrowserConfigs, BrowserYaml, CommandOutput, ConfigFile,
    Installation, ProbedConfig,
};
use web_apps::config::Config;

fn config() -> Config {
    Config {
        app_id: "org.example.WebApps".to_string(),
        app_name: "Web Apps".to_string(),
        app_name_short: "wa".to_string(),
        app_name_hyphen: "web-apps".to_string(),
        version: "0.2.0".to_string(),
    }
}

fn dirs() -> AppDirs {
    AppDirs::new(&config(), "/home/u", "/home/u/.local/share", "/home/u/.config", vec![], vec![])
}

fn yaml(name: &str, flatpak: Option<&str>, bin: Option<&str>, base: &str) -> BrowserYaml {
    BrowserYaml {
        name: name.to_string(),
        flatpak: flatpak.map(str::to_string),
        system_bin: bin.map(str::to_string),
        can_isolate: true,
        can_start_maximized: true,
        desktop_file_name_prefix: format!("{}-prefix", name.to_lowercase()),
        base: base.to_string(),
        issues: vec!["an issue".to_string()],
    }
}

fn browser_config(name: &str, flatpak: Option<&str>, bin: Option<&str>, base: &str) -> BrowserConfig {
    BrowserConfig {
        config: yaml(name, flatpak, bin, base),
        config_name: name.to_lowercase(),
        file_name: format!("{}.yml", name.to_lowercase()),
        desktop_file: "[Desktop Entry]\nName=%{name}\n".to_string(),
    }
}

fn probed(config: BrowserConfig, flatpak: bool, system: bool, icons: Option<&str>) -> ProbedConfig {
    ProbedConfig {
        config,
        flatpak_installed: flatpak,
        system_installed: system,
        icon_search_path: icons.map(str::to_string),
    }
}

fn registry() -> BrowserConfigs {
    let mut configs = BrowserConfigs::new();
    configs.init(&vec![
        probed(browser_config("Chromium", Some("org.chromium.Chromium"), Some("chromium"), "chromium"), true, true, Some("/fp/chromium/export/share/icons")),
        probed(browser_config("Firefox", Some("org.mozilla.firefox"), Some("firefox"), "firefox"), false, true, Some("/fp/firefox/export/share/icons")),
        probed(browser_config("Brave", Some("com.brave.Browser"), None, "chromium"), false, false, None),
        probed(browser_config("Odd", None, Some("odd"), "webkit"), true, false, None),
    ]);
    configs
}

fn ids(list: &[Browser]) -> Vec<String> {
    list.iter().map(|b| b.id.clone()).collect()
}

#[test]
fn a_base_is_named() {
    assert_eq!(Base::from_string("chromium"), Base::Chromium);
    assert_eq!(Base::from_string("firefox"), Base::Firefox);
    assert_eq!(Base::from_string("Chromium"), Base::NoBase);
    assert_eq!(Base::from_string(""), Base::NoBase);
    assert_eq!(Base::from_string("webkit"), Base::NoBase);
}

#[test]
fn an_empty_registry_has_no_browsers() {
    let configs = BrowserConfigs::new();
    assert!(configs.get_all_browsers().is_empty());
    assert!(configs.get_uninstalled_browsers().is_empty());
    assert!(configs.get_icon_search_paths().is_empty());
    assert!(configs.get_by_id("firefox").is_none());
}

#[test]
fn definitions_are_sorted_into_installed_and_not_installed() {
    let configs = registry();
    assert_eq!(
        ids(configs.get_all_browsers()),
        vec!["org.chromium.Chromium", "chromium", "firefox", ""]
    );
    assert_eq!(ids(configs.get_uninstalled_browsers()), vec!["Not installed", "Not installed"]);
    let names: Vec<&str> = configs.get_uninstalled_browsers().iter().map(|b| b.name.as_str()).collect();
    assert_eq!(names, vec!["Brave", "Odd"]);
}

#[test]
fn the_entry_for_no_browser_closes_the_list() {
    let configs = registry();
    let last = configs.get_all_browsers().last().unwrap();
    assert_eq!(last.name, "No browser");
    assert_eq!(last.id, "");
    assert!(!last.is_installed());
    assert!(!last.can_isolate);
    assert!(!last.can_start_maximized);
    assert_eq!(last.base, Base::NoBase);
    assert_eq!(last.icon_names, vec!["dialog-warning-symbolic"]);
    let mut empty = BrowserConfigs::new();
    empty.init(&vec![]);
    assert_eq!(ids(empty.get_all_browsers()), vec![""]);
}

#[test]
fn only_installed_packages_add_their_icon_directory() {
    let configs = registry();
    assert_eq!(configs.get_icon_search_paths(), &vec!["/fp/chromium/export/share/icons".to_string()]);
}

#[test]
fn browsers_are_found_by_identifier_and_by_position() {
    let configs = registry();
    let chromium = configs.get_by_id("chromium").unwrap();
    assert!(chromium.is_system());
    assert!(!chromium.is_flatpak());
    assert!(chromium.is_installed());
    assert_eq!(chromium.get_index(&configs), Some(1));
    assert_eq!(configs.get_index(chromium), Some(1));
    let flatpak = configs.get_by_id("org.chromium.Chromium").unwrap();
    assert!(flatpak.is_flatpak());
    assert_eq!(flatpak.get_index(&configs), Some(0));
    assert!(configs.get_by_id("com.brave.Browser").is_none());
    assert!(configs.get_by_id("Not installed").is_none());
    let brave = &configs.get_uninstalled_browsers()[0];
    assert_eq!(brave.get_index(&configs), None);
    assert_eq!(configs.get_by_id("").unwrap().name, "No browser");
}

#[test]
fn one_identifier_stands_for_one_browser() {
    let mut configs = BrowserConfigs::new();
    configs.init(&vec![
        probed(browser_config("One", Some("org.same"), Some("same"), "chromium"), true, true, None),
        probed(browser_config("Two", Some("org.same"), Some("same"), "firefox"), true, true, None),
        probed(browser_config("Three", Some("same"), Some("org.same"), "firefox"), true, true, None),
        probed(browser_config("Four", Some(""), Some(""), "firefox"), true, true, None),
        probed(browser_config("Five", Some("five"), Some("five"), "firefox"), true, true, None),
    ]);
    assert_eq!(ids(configs.get_all_browsers()), vec!["org.same", "same", "five", ""]);
    let names: Vec<&str> = configs.get_all_browsers().iter().map(|b| b.name.as_str()).collect();
    assert_eq!(names, vec!["One", "One", "Five", "No browser"]);
    assert_eq!(configs.get_by_id("same").unwrap().name, "One");
    assert!(configs.get_by_id("five").unwrap().is_flatpak());
    assert_eq!(configs.get_by_id("").unwrap().name, "No browser");
    // A definition that was found counts as installed, also where its
    // browsers were passed over.
    assert!(configs.get_uninstalled_browsers().is_empty());
    let all = ids(configs.get_all_browsers());
    for (i, id) in all.iter().enumerate() {
        assert_eq!(all.iter().position(|other| other == id), Some(i));
    }
}

#[test]
fn packages_and_system_browsers_are_listed_apart() {
    let configs = registry();
    let flatpaks: Vec<&str> = configs.get_flatpak_browsers().iter().map(|b| b.id.as_str()).collect();
    assert_eq!(flatpaks, vec!["org.chromium.Chromium"]);
    let systems: Vec<&str> = configs.get_system_browsers().iter().map(|b| b.id.as_str()).collect();
    assert_eq!(systems, vec!["chromium", "firefox"]);
}

#[test]
fn a_browser_takes_its_fields_from_the_definition() {
    let config = browser_config("Chromium", Some(" org.chromium.Chromium "), Some("chromium"), "chromium");
    let browser = Browser::new(&config, Installation::System("chromium".to_string()));
    assert_eq!(browser.id, "chromium");
    assert_eq!(browser.name, "Chromium");
    assert!(browser.can_isolate);
    assert!(browser.can_start_maximized);
    assert_eq!(browser.flatpak_id.as_deref(), Some(" org.chromium.Chromium "));
    assert_eq!(browser.executable.as_deref(), Some("chromium"));
    assert_eq!(browser.desktop_file, "[Desktop Entry]\nName=%{name}\n");
    assert_eq!(browser.desktop_file_name_prefix, "chromium-prefix");
    assert_eq!(browser.base, Base::Chromium);
    assert_eq!(browser.issues, vec!["an issue"]);
    assert_eq!(browser.config_name, "chromium");
    assert_eq!(browser.icon_names, vec!["org.chromium.Chromium", "chromium", "Chromium"]);
    let copy = browser.duplicate();
    assert_eq!(copy.id, browser.id);
    assert_eq!(copy.icon_names, browser.icon_names);
    assert_eq!(copy.issues, browser.issues);
}

#[test]
fn no_icon_name_occurs_twice() {
    let config = browser_config("firefox", Some("firefox"), Some(" firefox"), "firefox");
    assert_eq!(Browser::get_icon_names_from_config(&config), vec!["firefox"]);
}

#[test]
fn the_name_says_how_a_browser_is_installed() {
    let config = browser_config("Firefox", Some("org.mozilla.firefox"), Some("firefox"), "firefox");
    let flatpak = Browser::new(&config, Installation::Flatpak("org.mozilla.firefox".to_string()));
    let system = Browser::new(&config, Installation::System("firefox".to_string()));
    let missing = Browser::new(&config, Installation::NotInstalled);
    assert_eq!(flatpak.get_name_with_installation(), "Firefox (Flatpak)");
    assert_eq!(system.get_name_with_installation(), "Firefox (System)");
    assert_eq!(missing.get_name_with_installation(), "Firefox");
    assert_eq!(missing.id, "Not installed");
}

#[test]
fn the_run_command_follows_the_installation() {
    let config = browser_config("Firefox", Some("org.mozilla.firefox"), Some("firefox"), "firefox");
    let flatpak = Browser::new(&config, Installation::Flatpak("org.mozilla.firefox".to_string()));
    let system = Browser::new(&config, Installation::System("firefox".to_string()));
    let missing = Browser::new(&config, Installation::NotInstalled);
    assert_eq!(flatpak.get_run_command(), Ok("flatpak run org.mozilla.firefox".to_string()));
    assert_eq!(system.get_run_command(), Ok("firefox".to_string()));
    assert_eq!(missing.get_run_command(), Err("Browser is not installed".to_string()));
}

#[test]
fn profiles_live_with_the_application_or_with_the_package() {
    let config = browser_config("Firefox", Some("org.mozilla.firefox"), Some("firefox"), "firefox");
    let flatpak = Browser::new(&config, Installation::Flatpak("org.mozilla.firefox".to_string()));
    let system = Browser::new(&config, Installation::System("firefox".to_string()));
    let missing = Browser::new(&config, Installation::NotInstalled);
    assert_eq!(
        flatpak.get_profile_path(&dirs(), &config_values()),
        Ok("/home/u/.var/app/org.mozilla.firefox/data/web-apps/profiles".to_string())
    );
    assert_eq!(
        system.get_profile_path(&dirs(), &config_values()),
        Ok("/home/u/.local/share/web-apps/profiles/firefox".to_string())
    );
    assert_eq!(
        missing.get_profile_path(&dirs(), &config_values()),
        Err("Browser is not installed".to_string())
    );
}

fn config_values() -> Config {
    config()
}

#[test]
fn a_browser_without_profiles_has_no_profile_path() {
    let mut config = browser_config("Firefox", None, Some("firefox"), "firefox");
    config.config.can_isolate = false;
    let browser = Browser::new(&config, Installation::System("firefox".to_string()));
    assert_eq!(browser.get_profile_path(&dirs(), &self::config()), Err("Browser cannot isolate".to_string()));
    let odd = Browser::new(&browser_config("Odd", None, Some("odd"), "webkit"), Installation::System("odd".to_string()));
    assert_eq!(odd.get_profile_path(&dirs(), &self::config()), Err("No base browser on 'Browser'".to_string()));
}

#[test]
fn probes_are_commands() {
    assert_eq!(BrowserConfigs::flatpak_probe_command("org.x.Y"), "flatpak info org.x.Y");
    assert_eq!(BrowserConfigs::system_probe_command("firefox"), "which firefox");
    assert_eq!(BrowserConfigs::flatpak_location_command("org.x.Y"), "flatpak info --show-location org.x.Y");
}

fn output(success: bool, stdout: &str) -> Option<CommandOutput> {
    Some(CommandOutput { success, stdout: stdout.to_string(), stderr: String::new() })
}

#[test]
fn a_probe_finds_what_its_command_reports() {
    assert!(BrowserConfigs::is_installed_flatpak(&output(true, "")));
    assert!(!BrowserConfigs::is_installed_flatpak(&output(false, "")));
    assert!(!BrowserConfigs::is_installed_flatpak(&None));
    assert!(BrowserConfigs::is_installed_system(&output(true, "/usr/bin/firefox")));
    assert!(!BrowserConfigs::is_installed_system(&output(false, "")));
    assert!(!BrowserConfigs::is_installed_system(&None));
}

#[test]
fn the_icon_directory_of_a_package_lies_below_its_location() {
    assert_eq!(
        BrowserConfigs::get_icon_search_path_flatpak(true, &output(true, "/var/lib/flatpak/app/x")),
        Some("/var/lib/flatpak/app/x/export/share/icons".to_string())
    );
    assert_eq!(BrowserConfigs::get_icon_search_path_flatpak(false, &output(true, "/x")), None);
    assert_eq!(BrowserConfigs::get_icon_search_path_flatpak(true, &output(false, "/x")), None);
    assert_eq!(BrowserConfigs::get_icon_search_path_flatpak(true, &None), None);
}

#[test]
fn an_icon_directory_is_noted_only_where_it_exists() {
    let mut configs = registry();
    configs.add_icon_search_path("/missing", false);
    configs.add_icon_search_path("/there", true);
    assert_eq!(
        configs.get_icon_search_paths(),
        &vec!["/fp/chromium/export/share/icons".to_string(), "/there".to_string()]
    );
    assert_eq!(configs.get_all_browsers().len(), 4);
}

#[test]
fn the_template_has_the_stem_of_the_definition() {
    assert_eq!(
        BrowserConfigs::template_path(&dirs(), "firefox.yml"),
        "/home/u/.config/web-apps/desktop-files/firefox.desktop"
    );
    assert_eq!(
        BrowserConfigs::template_path(&dirs(), "a.b.yaml"),
        "/home/u/.config/web-apps/desktop-files/a.b.desktop"
    );
}

fn file(name: &str, definition: bool, template: Option<&str>) -> ConfigFile {
    ConfigFile {
        file_name: name.to_string(),
        definition: if definition { Some(yaml(name, None, Some("bin"), "chromium")) } else { None },
        template: template.map(str::to_string),
    }
}

#[test]
fn files_that_give_no_definition_are_passed_over() {
    let good = "[Desktop Entry]\nName=%{name}\n";
    let configs = BrowserConfigs::get_browsers_from_files(vec![
        file("one.yml", true, Some(good)),
        file("notes.txt", true, Some(good)),
        file("broken.yml", false, Some(good)),
        file("lonely.yaml", true, None),
        file("bad-template.yml", true, Some("Name=before the header\n")),
        file("two.yaml", true, Some(good)),
        file("noextension", true, Some(good)),
        file(".yml", true, Some(good)),
    ]);
    let names: Vec<&str> = configs.iter().map(|c| c.file_name.as_str()).collect();
    assert_eq!(names, vec!["one.yml", "two.yaml"]);
    assert_eq!(configs[0].config_name, "one");
    assert_eq!(configs[1].config_name, "two");
    assert_eq!(configs[0].desktop_file, good);
    assert_eq!(configs[0].config.name, "one.yml");
    assert!(BrowserConfigs::get_browsers_from_files(vec![]).is_empty());
}

#[test]
fn the_directories_follow_from_the_base_directories() {
    let d = dirs();
    assert_eq!(d.user_home, "/home/u");
    assert_eq!(d.app_data, "/home/u/.local/share/web-apps");
    assert_eq!(d.app_config, "/home/u/.config/web-apps");
    assert_eq!(d.user_applications, "/home/u/.local/share/applications");
    assert_eq!(d.app_data_profiles, "/home/u/.local/share/web-apps/profiles");
    assert_eq!(d.app_data_icons, "/home/u/.local/share/web-apps/icons");
    assert_eq!(d.app_config_browser_configs, "/home/u/.config/web-apps/browsers");
    assert_eq!(d.app_config_browser_desktop_files, "/home/u/.config/web-apps/desktop-files");
    assert_eq!(d.user_flatpak, "/home/u/.var/app");
    assert_eq!(
        d.required_directories(),
        vec![
            "/home/u/.local/share/applications",
            "/home/u/.local/share/web-apps/profiles",
            "/home/u/.local/share/web-apps/icons",
            "/home/u/.config/web-apps/browsers",
            "/home/u/.config/web-apps/desktop-files",
        ]
    );
}

#[test]
fn system_icons_lie_in_the_system_data_directories() {
    let data = vec!["/usr/share".to_string(), "/usr/local/share/".to_string()];
    assert_eq!(
        AppDirs::build_system_icon_paths(&data),
        vec!["/usr/share/icons", "/usr/local/share/icons"]
    );
    assert!(AppDirs::build_system_icon_paths(&vec![]).is_empty());
    assert_eq!(AppDirs::build_flatpak_path("/home/u"), "/home/u/.var/app");
}
