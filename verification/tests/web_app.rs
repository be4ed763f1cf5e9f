use web_apps::app_dirs::AppDirs;
use web_apps::browsers::{
    Browser, BrowserConfig, BrowserConfigs, BrowserYaml, Installation, ProbedConfig,
};
use web_apps::category::Category;
use web_apps::config::Config;
use web_apps::desktop_file::{
    overlay_source, DesktopFile, DesktopFileEntries, PathFacts, Removal, UpdatePlan,
};
use web_apps::error::{DesktopFileError, ValidationError};
use web_apps::key::Key;
use web_apps::version::Version;

const TEMPLATE: &str = "[Desktop Entry]\nVersion=1.0\nType=Application\nName=%{name}\nExec=%{command} --app=%{url}\nIcon=%{icon}\nStartupWMClass=%{domain_path}\n%{is_isolated ? Profile}\nX-Class=%{app_id}\nX-Maximized=%{is_maximized ? yes}\n";

fn config() -> Config {
    Config {
        app_id: "org.example.WebApps".to_string(),
        app_name: "Web Apps".to_string(),
        app_name_short: "wa".to_string(),
        app_name_hyphen: "web-apps".to_string(),
        version: "0.2.0".to_string(),
    }
}

fn dirs() -> AppDirs {
    AppDirs::new(&config(), "/home/u", "/home/u/.local/share", "/home/u/.config", vec![], vec![])
}

fn definition(name: &str, bin: &str, base: &str, can_isolate: bool, template: &str) -> ProbedConfig {
    ProbedConfig {
        config: BrowserConfig {
            config: BrowserYaml {
                name: name.to_string(),
                flatpak: Some(format!("org.example.{name}")),
                system_bin: Some(bin.to_string()),
                can_isolate,
                can_start_maximized: true,
                desktop_file_name_prefix: format!("org.example.{name}"),
                base: base.to_string(),
                issues: vec![],
            },
            config_name: bin.to_string(),
            file_name: format!("{bin}.yml"),
            desktop_file: template.to_string(),
        },
        flatpak_installed: false,
        system_installed: true,
        icon_search_path: None,
    }
}

fn registry() -> BrowserConfigs {
    let mut configs = BrowserConfigs::new();
    let mut packaged = definition("Brave", "brave", "chromium", true, TEMPLATE);
    packaged.flatpak_installed = true;
    packaged.system_installed = false;
    configs.init(&vec![
        definition("Chromium", "chromium", "chromium", true, TEMPLATE),
        definition("Firefox", "firefox", "firefox", true, TEMPLATE),
        definition("Plain", "plain", "chromium", false, TEMPLATE),
        definition("Odd", "odd", "webkit", true, TEMPLATE),
        definition("Broken", "broken", "chromium", true, "[Desktop Entry]\n%{name}\n"),
        packaged,
    ]);
    configs
}

fn web_app() -> DesktopFile {
    let mut file = DesktopFile::with_id("AbCd1234", &config());
    file.set_name("Test App");
    file.set_url("https://example.com");
    file.set_browser(registry().get_by_id("chromium").unwrap());
    file.set_isolated(false);
    file.set_maximized(false);
    file.set_icon_path("/home/u/.local/share/web-apps/icons/AbCd1234.png");
    file
}

fn without(file: &DesktopFile, key: Key) -> DesktopFile {
    let prefix = format!("{}=", key.as_str());
    let text: String = file
        .to_string()
        .lines()
        .filter(|line| !line.starts_with(&prefix))
        .map(|line| format!("{line}\n"))
        .collect();
    DesktopFile::from_string(&file.get_path(), &text).unwrap()
}

fn validation(e: DesktopFileError) -> (Key, String) {
    match e {
        DesktopFileError::ValidationError(ValidationError { field, message }) => (field, message),
        DesktopFileError::Other(message) => panic!("not about a field: {message}"),
    }
}

fn other(e: DesktopFileError) -> String {
    match e {
        DesktopFileError::Other(message) => message,
        DesktopFileError::ValidationError(e) => panic!("about a field: {}", e.to_string()),
    }
}

fn resolve(file: &DesktopFile) -> Result<DesktopFileEntries, DesktopFileError> {
    file.get_entries(&registry())
}

const FILE: PathFacts = PathFacts { is_file: true, is_dir: false, is_symlink: false };
const DIRECTORY: PathFacts = PathFacts { is_file: false, is_dir: true, is_symlink: false };
const NOTHING: PathFacts = PathFacts { is_file: false, is_dir: false, is_symlink: false };
const LINK: PathFacts = PathFacts { is_file: true, is_dir: false, is_symlink: true };

#[test]
fn a_new_descriptor_has_an_identifier_and_the_version() {
    let file = DesktopFile::new(&config());
    let id = file.get_id().unwrap();
    assert_eq!(id.len(), 8);
    assert!(id.chars().all(|c| c.is_ascii_alphanumeric()));
    assert_eq!(file.get_version().unwrap().to_string(), "0.2.0");
    assert_eq!(file.get_path(), "");
    assert_eq!(file.to_string(), format!("[Desktop Entry]\nX-WebApp-Id={id}\nX-WebApp-Version=0.2.0\n"));
    assert_eq!(file.get_name(), None);
    assert_ne!(DesktopFile::new(&config()).get_id(), DesktopFile::new(&config()).get_id());
}

#[test]
fn a_copy_of_a_descriptor_is_the_same_descriptor() {
    let mut file = web_app();
    file.set_path("/apps/a.desktop");
    let copy = file.duplicate();
    assert_eq!(copy.to_string(), file.to_string());
    assert_eq!(copy.get_path(), "/apps/a.desktop");
    file.set_name("Changed");
    assert_eq!(copy.get_name().as_deref(), Some("Test App"));
}

#[test]
fn a_descriptor_with_a_given_identifier_is_blank_otherwise() {
    let file = DesktopFile::with_id("AbCd1234", &config());
    assert_eq!(file.to_string(), "[Desktop Entry]\nX-WebApp-Id=AbCd1234\nX-WebApp-Version=0.2.0\n");
}

#[test]
fn fields_are_read_as_they_were_set() {
    let mut file = web_app();
    file.set_description("A test");
    file.set_category(&Category::Office);
    file.set_profile_path("/p");
    file.set_is_owned_app();
    file.set_version(&Version::new(1, 2, 3));
    file.set_id("Zz000000");
    file.set_path("/x.desktop");
    assert_eq!(file.get_name().as_deref(), Some("Test App"));
    assert_eq!(file.get_url().as_deref(), Some("https://example.com"));
    assert_eq!(file.get_browser(&registry()).unwrap().name, "Chromium");
    assert_eq!(file.get_isolated(), Some(false));
    assert_eq!(file.get_maximized(), Some(false));
    assert_eq!(file.get_icon_path().as_deref(), Some("/home/u/.local/share/web-apps/icons/AbCd1234.png"));
    assert_eq!(file.get_description().as_deref(), Some("A test"));
    assert_eq!(file.get_category().as_deref(), Some("Office"));
    assert_eq!(file.get_profile_path().as_deref(), Some("/p"));
    assert!(file.get_is_owned_app());
    assert_eq!(file.get_version().unwrap().to_string(), "1.2.3");
    assert_eq!(file.get_id().as_deref(), Some("Zz000000"));
    assert_eq!(file.get_path(), "/x.desktop");
    assert_eq!(file.get_exec(), None);
    file.set_isolated(true);
    file.set_maximized(true);
    file.set_category_str("Game;Network");
    assert_eq!(file.get_isolated(), Some(true));
    assert_eq!(file.get_maximized(), Some(true));
    assert_eq!(file.get_category().as_deref(), Some("Game;Network"));
}

#[test]
fn a_field_that_is_not_of_its_type_is_absent() {
    let text = "[Desktop Entry]\nName=\nX-WebApp-Isolate=yes\nX-WebApp-Maximize=True\nX-WebApp-Version=1.0\nIcon=\nX-WebApp=1\nX-WebApp-Browser=nowhere\n";
    let file = DesktopFile::from_string("/a.desktop", text).unwrap();
    assert_eq!(file.get_name(), None);
    assert_eq!(file.get_isolated(), None);
    assert_eq!(file.get_maximized(), None);
    assert!(file.get_version().is_none());
    assert_eq!(file.get_icon_path(), None);
    assert!(!file.get_is_owned_app());
    assert!(file.get_browser(&registry()).is_none());
    assert_eq!(file.get_url(), None);
}

#[test]
fn a_front_end_learns_what_the_browser_can_do() {
    let mut file = web_app();
    assert!(file.browser_can_isolate(&registry()));
    assert!(file.browser_can_maximize(&registry()));
    file.set_browser(registry().get_by_id("plain").unwrap());
    assert!(!file.browser_can_isolate(&registry()));
    assert!(file.browser_can_maximize(&registry()));
    assert!(!without(&file, Key::BrowserId).browser_can_isolate(&registry()));
    assert!(!without(&file, Key::BrowserId).browser_can_maximize(&registry()));
}

#[test]
fn ownership_is_read_from_the_text() {
    assert_eq!(DesktopFile::is_owned("/a.desktop", "[Desktop Entry]\nX-WebApp=true\n").ok(), Some(true));
    assert_eq!(DesktopFile::is_owned("/a.desktop", "[Desktop Entry]\nX-WebApp=false\n").ok(), Some(false));
    assert_eq!(DesktopFile::is_owned("/a.desktop", "[Desktop Entry]\nName=x\n").ok(), Some(false));
    assert!(DesktopFile::is_owned("/a.desktop", "nothing of the kind").is_err());
}

#[test]
fn a_complete_descriptor_resolves() {
    let entries = resolve(&web_app()).unwrap();
    assert_eq!(entries.name(), "Test App");
    assert_eq!(entries.app_id(), "AbCd1234");
    assert_eq!(entries.version().to_string(), "0.2.0");
    assert_eq!(entries.browser().id, "chromium");
    assert_eq!(entries.url(), "https://example.com/");
    assert_eq!(entries.url_path(), "/");
    assert_eq!(entries.domain(), "example.com");
    assert!(!entries.isolate());
    assert!(!entries.maximize());
    assert_eq!(entries.icon_path(), "/home/u/.local/share/web-apps/icons/AbCd1234.png");
    assert_eq!(entries.profile_path(), "");
    assert_eq!(entries.category(), "Network");
    assert_eq!(entries.description(), &None);
}

#[test]
fn each_unset_field_is_named_as_missing() {
    for key in [Key::Name, Key::Id, Key::Version, Key::Url, Key::BrowserId, Key::Isolate, Key::Maximize, Key::Icon] {
        let e = resolve(&without(&web_app(), key)).err().unwrap();
        assert_eq!(validation(e), (key, "Missing".to_string()));
    }
}

#[test]
fn the_profile_is_required_of_an_isolated_web_app_only() {
    let mut file = web_app();
    file.set_isolated(true);
    assert_eq!(validation(resolve(&file).err().unwrap()), (Key::Profile, "Missing".to_string()));
    file.set_profile_path("");
    assert_eq!(validation(resolve(&file).err().unwrap()), (Key::Profile, "Missing".to_string()));
    file.set_profile_path("/profiles/AbCd1234");
    assert_eq!(resolve(&file).unwrap().profile_path(), "/profiles/AbCd1234");
    file.set_isolated(false);
    assert_eq!(resolve(&file).unwrap().profile_path(), "/profiles/AbCd1234");
}

#[test]
fn fields_are_checked_in_order() {
    let mut file = without(&without(&web_app(), Key::Icon), Key::Url);
    assert_eq!(validation(resolve(&file).err().unwrap()).0, Key::Url);
    file.set_url("https://example.com");
    assert_eq!(validation(resolve(&file).err().unwrap()).0, Key::Icon);
    let file = without(&without(&web_app(), Key::Name), Key::Id);
    assert_eq!(validation(resolve(&file).err().unwrap()).0, Key::Name);
}

#[test]
fn an_address_that_cannot_be_read_is_invalid() {
    let mut file = web_app();
    file.set_url("not-a-url");
    assert_eq!(validation(resolve(&file).err().unwrap()), (Key::Url, "Invalid".to_string()));
    file.set_url("mailto:rms@example.net");
    assert_eq!(validation(resolve(&file).err().unwrap()), (Key::Url, "Invalid domain".to_string()));
    file.set_url("");
    assert_eq!(validation(resolve(&file).err().unwrap()), (Key::Url, "Missing".to_string()));
    file.set_url("http://127.0.0.1/x");
    assert_eq!(resolve(&file).unwrap().domain(), "127.0.0.1");
}

#[test]
fn a_version_that_is_none_is_missing() {
    let mut file = web_app();
    file.set_version(&Version::new(1, 0, 0));
    assert!(resolve(&file).is_ok());
    let text = file.to_string().replace("X-WebApp-Version=1.0.0", "X-WebApp-Version=one");
    let file = DesktopFile::from_string("", &text).unwrap();
    assert_eq!(validation(resolve(&file).err().unwrap()), (Key::Version, "Missing".to_string()));
}

#[test]
fn a_browser_that_the_registry_lacks_is_missing() {
    let mut file = web_app();
    let absent = Browser::new(&definition("Gone", "gone", "chromium", true, TEMPLATE).config, Installation::NotInstalled);
    file.set_browser(&absent);
    assert_eq!(file.get_browser(&registry()).map(|b| b.name.clone()), None);
    assert_eq!(validation(resolve(&file).err().unwrap()), (Key::BrowserId, "Missing".to_string()));
    file.set_browser(registry().get_by_id("").unwrap());
    assert_eq!(validation(resolve(&file).err().unwrap()), (Key::BrowserId, "Missing".to_string()));
    assert_eq!(validation(file.get_entries(&BrowserConfigs::new()).err().unwrap()).0, Key::BrowserId);
}

#[test]
fn errors_have_a_text() {
    let e = resolve(&without(&web_app(), Key::Url)).err().unwrap();
    assert_eq!(e.to_string(), "Field: X-WebApp-Url, Error: Missing");
    assert_eq!(ValidationError::new(Key::Name, "Invalid").to_string(), "Field: Name, Error: Invalid");
    assert_eq!(ValidationError::missing(Key::Icon).message, "Missing");
    assert_eq!(DesktopFileError::other("Saving desktop file").to_string(), "Saving desktop file");
}

#[test]
fn keys_have_names() {
    let names: Vec<&str> = [Key::Owned, Key::Name, Key::Exec, Key::Icon, Key::Categories, Key::Comment, Key::Id, Key::Version, Key::Url, Key::BrowserId, Key::Isolate, Key::Maximize, Key::Profile]
        .iter()
        .map(|k| k.as_str())
        .collect();
    assert_eq!(
        names,
        vec!["X-WebApp", "Name", "Exec", "Icon", "Categories", "Comment", "X-WebApp-Id", "X-WebApp-Version", "X-WebApp-Url", "X-WebApp-Browser", "X-WebApp-Isolate", "X-WebApp-Maximize", "X-WebApp-Profile"]
    );
    assert_eq!(Key::Url.to_string(), "X-WebApp-Url");
    assert_eq!(Category::Network.to_string(), "Network");
    assert_eq!(Category::AudioVideo.as_str(), "AudioVideo");
}

#[test]
fn the_save_path_is_made_of_prefix_short_name_and_identifier() {
    let entries = resolve(&web_app()).unwrap();
    assert_eq!(
        DesktopFile::get_save_path(&entries, &dirs(), &config()),
        "/home/u/.local/share/applications/org.example.Chromium-wa-AbCd1234.desktop"
    );
}

#[test]
fn saving_a_new_web_app_renders_the_template_of_its_browser() {
    let file = web_app();
    let plan = file.save(&NOTHING, &registry(), &dirs(), &config()).unwrap();
    assert_eq!(plan.remove, None);
    assert_eq!(plan.path, "/home/u/.local/share/applications/org.example.Chromium-wa-AbCd1234.desktop");
    assert!(!plan.unknown_placeholder);
    let expected = "[Desktop Entry]\n\
        Version=1.0\n\
        Type=Application\n\
        Name=Test App\n\
        Exec=chromium --app=https://example.com/\n\
        Icon=/home/u/.local/share/web-apps/icons/AbCd1234.png\n\
        StartupWMClass=example.com__\n\
        X-Class=wa-AbCd1234\n\
        X-Maximized=\n\
        X-WebApp=true\n\
        X-WebApp-Id=AbCd1234\n\
        X-WebApp-Version=0.2.0\n\
        X-WebApp-Url=https://example.com/\n\
        X-WebApp-Browser=chromium\n\
        X-WebApp-Isolate=false\n\
        X-WebApp-Maximize=false\n\
        X-WebApp-Profile=\n\
        Categories=Network\n";
    assert_eq!(plan.text, expected);
    assert!(plan.text.lines().all(|line| !line.starts_with("Profile")));
    assert!(plan.text.lines().any(|line| line == "Exec=chromium --app=https://example.com/"));
    assert_eq!(plan.file.to_string(), plan.text);
    assert_eq!(plan.file.get_path(), plan.path);
    assert_eq!(plan.file.get_exec().as_deref(), Some("chromium --app=https://example.com/"));
}

#[test]
fn an_isolated_and_maximized_web_app_gets_its_conditionals() {
    let mut file = web_app();
    file.set_isolated(true);
    file.set_maximized(true);
    file.set_profile_path("/profiles/AbCd1234");
    file.set_description("A test");
    file.set_category(&Category::Office);
    file.set_browser(registry().get_by_id("org.example.Brave").unwrap());
    let rendered = file.to_new_from_browser(&registry(), &dirs(), &config()).unwrap();
    let text = rendered.to_string();
    assert!(text.contains("\nProfile=/profiles/AbCd1234\n"));
    assert!(text.contains("\nX-Maximized=yes\n"));
    assert!(text.contains("\nExec=flatpak run org.example.Brave --app=https://example.com/\n"));
    assert!(text.contains("\nComment=A test\n"));
    assert!(text.contains("\nCategories=Office\n"));
    assert!(text.contains("\nX-WebApp-Profile=/profiles/AbCd1234\n"));
    assert_eq!(rendered.get_path(), "/home/u/.local/share/applications/org.example.Brave-wa-AbCd1234.desktop");
}

#[test]
fn the_saved_text_resolves_to_the_record_it_was_rendered_from() {
    let mut file = web_app();
    file.set_url("HTTPS://Example.com/foo/bar?q=1");
    file.set_isolated(true);
    file.set_profile_path("/profiles/AbCd1234");
    file.set_description("A test");
    file.set_version(&Version::parse("0.1.0-rc.1+b2").unwrap());
    let before = resolve(&file).unwrap();
    let plan = file.save(&NOTHING, &registry(), &dirs(), &config()).unwrap();
    let read = DesktopFile::from_string(&plan.path, &plan.text).unwrap();
    assert_eq!(read.to_string(), plan.text);
    let after = resolve(&read).unwrap();
    assert_eq!(after.name(), before.name());
    assert_eq!(after.app_id(), before.app_id());
    assert_eq!(after.version().to_string(), before.version().to_string());
    assert_eq!(after.browser().id, before.browser().id);
    assert_eq!(after.url(), before.url());
    assert_eq!(after.url_path(), before.url_path());
    assert_eq!(after.domain(), before.domain());
    assert_eq!(after.isolate(), before.isolate());
    assert_eq!(after.maximize(), before.maximize());
    assert_eq!(after.icon_path(), before.icon_path());
    assert_eq!(after.profile_path(), before.profile_path());
    assert_eq!(after.category(), before.category());
    assert_eq!(after.description(), before.description());
    assert!(read.get_is_owned_app());
    // Saved once more, the text stays.
    let again = read.save(&FILE, &registry(), &dirs(), &config()).unwrap();
    assert_eq!(again.text, plan.text);
    assert_eq!(again.remove.as_deref(), Some(plan.path.as_str()));
}

#[test]
fn a_descriptor_that_does_not_resolve_is_not_saved() {
    let file = without(&web_app(), Key::Url);
    let e = file.save(&FILE, &registry(), &dirs(), &config()).err().unwrap();
    assert_eq!(validation(e), (Key::Url, "Missing".to_string()));
    let e = file.validate(&registry(), &dirs(), &config()).err().unwrap();
    assert_eq!(validation(e), (Key::Url, "Missing".to_string()));
    assert!(web_app().validate(&registry(), &dirs(), &config()).is_ok());
}

#[test]
fn a_template_that_renders_no_descriptor_is_an_error() {
    let mut file = web_app();
    file.set_browser(registry().get_by_id("broken").unwrap());
    let e = file.to_new_from_browser(&registry(), &dirs(), &config()).err().unwrap();
    assert_eq!(other(e), "InvalidEntry");
}

#[test]
fn line_feeds_in_a_value_spoil_the_text() {
    let mut file = web_app();
    file.set_name("Two\nLines");
    let e = file.to_new_from_browser(&registry(), &dirs(), &config()).err().unwrap();
    assert_eq!(other(e), "InvalidEntry");
}

#[test]
fn only_a_plain_file_at_the_old_path_is_removed() {
    let mut file = web_app();
    file.set_path("/old.desktop");
    let plan = |facts: &PathFacts| file.save(facts, &registry(), &dirs(), &config()).unwrap().remove;
    assert_eq!(plan(&FILE).as_deref(), Some("/old.desktop"));
    assert_eq!(plan(&LINK), None);
    assert_eq!(plan(&DIRECTORY), None);
    assert_eq!(plan(&NOTHING), None);
}

#[test]
fn the_descriptor_changes_once_the_text_is_written() {
    let mut file = web_app();
    let before = file.to_string();
    let plan = file.save(&NOTHING, &registry(), &dirs(), &config()).unwrap();
    let e = file.saved(plan, false).err().unwrap();
    assert_eq!(other(e), "Saving desktop file");
    assert_eq!(file.to_string(), before);
    let plan = file.save(&NOTHING, &registry(), &dirs(), &config()).unwrap();
    let text = plan.text.clone();
    let path = plan.path.clone();
    assert!(file.saved(plan, true).is_ok());
    assert_eq!(file.to_string(), text);
    assert_eq!(file.get_path(), path);
}

#[test]
fn an_unknown_placeholder_is_reported_with_the_plan() {
    let mut configs = BrowserConfigs::new();
    configs.init(&vec![definition("Chromium", "chromium", "chromium", true, "[Desktop Entry]\nName=%{name}\nX-Title=%{title}\n")]);
    let plan = web_app().save(&NOTHING, &configs, &dirs(), &config()).unwrap();
    assert!(plan.unknown_placeholder);
    assert!(plan.text.contains("\nX-Title=%{title}\n"));
}

fn removed(list: Vec<Removal>) -> Vec<String> {
    list.into_iter()
        .map(|r| match r {
            Removal::File(path) => format!("file {path}"),
            Removal::Directory(path) => format!("directory {path}"),
        })
        .collect()
}

#[test]
fn removal_takes_descriptor_icon_and_profile() {
    let mut file = web_app();
    file.set_path("/apps/a.desktop");
    file.set_icon_path("/icons/a.png");
    file.set_profile_path("/profiles/a");
    assert_eq!(
        removed(file.delete(&FILE, &FILE, &DIRECTORY)),
        vec!["file /apps/a.desktop", "file /icons/a.png", "directory /profiles/a"]
    );
    assert_eq!(removed(file.delete(&NOTHING, &FILE, &NOTHING)), vec!["file /icons/a.png"]);
    assert_eq!(removed(file.delete(&LINK, &NOTHING, &FILE)), vec!["file /apps/a.desktop"]);
    assert!(file.delete(&NOTHING, &NOTHING, &NOTHING).is_empty());
    let bare = DesktopFile::with_id("AbCd1234", &config());
    assert_eq!(removed(bare.delete(&FILE, &FILE, &DIRECTORY)), vec!["file "]);
}

#[test]
fn one_failed_removal_fails_the_whole() {
    assert!(DesktopFile::delete_outcome(&vec![]).is_ok());
    assert!(DesktopFile::delete_outcome(&vec![true, true, true]).is_ok());
    for outcome in [vec![false], vec![true, false, true], vec![true, true, false], vec![false, false, false]] {
        let e = DesktopFile::delete_outcome(&outcome).err().unwrap();
        assert_eq!(other(e), "Some files could not be removed, check logs");
    }
}

#[test]
fn a_current_descriptor_is_left_alone() {
    let mut file = web_app();
    let before = file.to_string();
    assert!(matches!(file.update(&registry(), &dirs(), &config()), Ok(UpdatePlan::Current)));
    assert_eq!(file.to_string(), before);
    file.set_version(&Version::parse("0.3.0").unwrap());
    let before = file.to_string();
    assert!(matches!(file.update(&registry(), &dirs(), &config()), Ok(UpdatePlan::Current)));
    assert_eq!(file.to_string(), before);
}

#[test]
fn an_older_isolated_web_app_is_brought_up_to_date() {
    let mut file = web_app();
    file.set_version(&Version::parse("0.1.0").unwrap());
    file.set_isolated(true);
    file.set_profile_path("/profiles/AbCd1234");
    file.set_path("/apps/old.desktop");
    let copy = match file.update(&registry(), &dirs(), &config()) {
        Ok(UpdatePlan::Refresh { copy: Some(copy) }) => copy,
        other => panic!("no copy planned: {other:?}"),
    };
    assert_eq!(copy.profile_path, "/profiles/AbCd1234");
    assert_eq!(
        copy.sources,
        vec!["/home/u/.config/web-apps/profiles/chromium", "/home/u/.config/web-apps/profiles/chromium"]
    );
    assert_eq!(file.get_version().unwrap().to_string(), "0.1.0");
    let plan = file.complete_update(&FILE, &registry(), &dirs(), &config()).unwrap();
    assert_eq!(file.get_version().unwrap().to_string(), "0.2.0");
    assert_eq!(plan.remove.as_deref(), Some("/apps/old.desktop"));
    assert!(plan.text.contains("\nX-WebApp-Version=0.2.0\n"));
    assert!(plan.text.contains("\nProfile=/profiles/AbCd1234\n"));
    assert!(file.saved(plan, true).is_ok());
    assert_eq!(file.get_version().unwrap().to_string(), "0.2.0");
    assert!(matches!(file.update(&registry(), &dirs(), &config()), Ok(UpdatePlan::Current)));
}

#[test]
fn an_older_web_app_without_a_profile_copies_nothing() {
    let mut file = web_app();
    file.set_version(&Version::parse("0.1.9").unwrap());
    assert!(matches!(file.update(&registry(), &dirs(), &config()), Ok(UpdatePlan::Refresh { copy: None })));
    file.set_isolated(true);
    assert!(matches!(file.update(&registry(), &dirs(), &config()), Ok(UpdatePlan::Refresh { copy: None })));
    file.set_isolated(false);
    file.set_profile_path("/profiles/a");
    assert!(matches!(file.update(&registry(), &dirs(), &config()), Ok(UpdatePlan::Refresh { copy: None })));
}

#[test]
fn a_descriptor_without_a_version_counts_as_the_oldest() {
    let mut file = without(&web_app(), Key::Version);
    assert!(matches!(file.update(&registry(), &dirs(), &config()), Ok(UpdatePlan::Refresh { copy: None })));
    assert_eq!(file.get_version().unwrap().to_string(), "0.0.0");
    let mut zero = config();
    zero.version = "0.0.0".to_string();
    let mut file = without(&web_app(), Key::Version);
    assert!(matches!(file.update(&registry(), &dirs(), &zero), Ok(UpdatePlan::Current)));
    assert_eq!(file.get_version().unwrap().to_string(), "0.0.0");
}

#[test]
fn an_update_needs_the_version_of_the_application() {
    let mut broken = config();
    broken.version = "next".to_string();
    let mut file = web_app();
    let before = file.to_string();
    assert_eq!(other(file.update(&registry(), &dirs(), &broken).err().unwrap()), "Failed to get app version");
    assert_eq!(other(file.complete_update(&FILE, &registry(), &dirs(), &broken).err().unwrap()), "Failed to get app version");
    assert_eq!(file.to_string(), before);
}

#[test]
fn an_update_of_an_isolated_web_app_needs_its_browser() {
    let mut file = web_app();
    file.set_version(&Version::parse("0.1.0").unwrap());
    file.set_isolated(true);
    file.set_profile_path("/profiles/a");
    let e = file.update(&BrowserConfigs::new(), &dirs(), &config()).err().unwrap();
    assert_eq!(other(e), "No browser on 'DesktopFile'");
}

#[test]
fn a_completed_update_that_does_not_resolve_is_not_saved() {
    let mut file = without(&web_app(), Key::Icon);
    file.set_version(&Version::parse("0.1.0").unwrap());
    let e = file.complete_update(&FILE, &registry(), &dirs(), &config()).err().unwrap();
    assert_eq!(validation(e), (Key::Icon, "Missing".to_string()));
    assert_eq!(file.get_version().unwrap().to_string(), "0.2.0");
}

#[test]
fn a_profile_is_planned_below_the_place_of_the_browser() {
    let mut file = web_app();
    file.set_isolated(true);
    let copy = file.build_profile_path(&registry(), &dirs(), &config()).unwrap();
    assert_eq!(copy.profile_path, "/home/u/.local/share/web-apps/profiles/chromium/AbCd1234");
    assert_eq!(
        copy.sources,
        vec!["/home/u/.config/web-apps/profiles/chromium", "/home/u/.config/web-apps/profiles/chromium"]
    );
    file.set_browser(registry().get_by_id("firefox").unwrap());
    let copy = file.build_profile_path(&registry(), &dirs(), &config()).unwrap();
    assert_eq!(copy.profile_path, "/home/u/.local/share/web-apps/profiles/firefox/AbCd1234");
    assert_eq!(
        copy.sources,
        vec!["/home/u/.config/web-apps/profiles/firefox", "/home/u/.config/web-apps/profiles/firefox"]
    );
    file.set_browser(registry().get_by_id("org.example.Brave").unwrap());
    let copy = file.build_profile_path(&registry(), &dirs(), &config()).unwrap();
    assert_eq!(copy.profile_path, "/home/u/.var/app/org.example.Brave/data/web-apps/profiles/AbCd1234");
    assert_eq!(
        copy.sources,
        vec!["/home/u/.config/web-apps/profiles/brave", "/home/u/.config/web-apps/profiles/chromium"]
    );
}

#[test]
fn no_profile_is_planned_where_it_cannot_be() {
    let plan = |file: &DesktopFile| other(file.build_profile_path(&registry(), &dirs(), &config()).err().unwrap());
    let mut file = web_app();
    assert_eq!(plan(&file), "Isolate is not set");
    assert_eq!(plan(&without(&file, Key::Isolate)), "Isolate is not set");
    file.set_isolated(true);
    assert_eq!(plan(&without(&file, Key::BrowserId)), "No browser on 'DesktopFile'");
    assert_eq!(plan(&without(&file, Key::Id)), "No id on 'DesktopFile'");
    file.set_browser(registry().get_by_id("plain").unwrap());
    assert_eq!(plan(&file), "Browser cannot isolate");
    file.set_browser(registry().get_by_id("odd").unwrap());
    assert_eq!(plan(&file), "No base browser on 'Browser'");
}

#[test]
fn settings_come_from_the_browser_or_its_family() {
    let mut file = web_app();
    file.set_browser(registry().get_by_id("odd").unwrap());
    let copy = file.copy_profile_config_to_profile_path("/p", &registry(), &dirs()).unwrap();
    assert_eq!(copy.profile_path, "/p");
    assert_eq!(copy.sources, vec!["/home/u/.config/web-apps/profiles/odd"]);
    let e = without(&file, Key::BrowserId).copy_profile_config_to_profile_path("/p", &registry(), &dirs());
    assert_eq!(other(e.err().unwrap()), "No browser on 'DesktopFile'");
}

#[test]
fn settings_are_copied_from_the_first_source_that_is_a_directory() {
    let mut file = web_app();
    file.set_browser(registry().get_by_id("org.example.Brave").unwrap());
    let copy = file.copy_profile_config_to_profile_path("/p", &registry(), &dirs()).unwrap();
    assert_eq!(copy.sources.len(), 2);
    assert_eq!(overlay_source(&copy, &vec![true, true]), Some(0));
    assert_eq!(overlay_source(&copy, &vec![false, true]), Some(1));
    assert_eq!(overlay_source(&copy, &vec![false, false]), None);
    assert_eq!(overlay_source(&copy, &vec![]), None);
    assert_eq!(overlay_source(&copy, &vec![false]), None);
    assert_eq!(overlay_source(&copy, &vec![false, false, true]), None);
    assert_eq!(overlay_source(&copy, &vec![true]), Some(0));
}

#[test]
fn a_name_that_looks_like_a_placeholder_is_saved_as_it_is() {
    let mut file = web_app();
    file.set_name("A %{url}");
    let rendered = file.to_new_from_browser(&registry(), &dirs(), &config()).unwrap();
    assert_eq!(rendered.get_name().as_deref(), Some("A %{url}"));
    let read = DesktopFile::from_string(&rendered.get_path(), &rendered.to_string()).unwrap();
    assert_eq!(resolve(&read).unwrap().name(), "A %{url}");
}

#[test]
fn a_template_with_lines_for_name_and_icon_gives_them_back() {
    let template = "[Desktop Entry]\nType=Application\nName=%{name}\nExec=%{command} %{is_isolated ? --user-data-dir} --app=%{url}\nIcon=%{icon}\nNoDisplay=false\n";
    let mut configs = BrowserConfigs::new();
    configs.init(&vec![definition("Chromium", "chromium", "chromium", true, template)]);
    let mut file = web_app();
    file.set_name("A %{url} %{is_isolated ? x} Name=B");
    file.set_icon_path("/icons/%{name}=%{icon}.png");
    file.set_isolated(true);
    file.set_profile_path("/profiles/%{command}");
    let before = file.get_entries(&configs).unwrap();
    let plan = file.save(&NOTHING, &configs, &dirs(), &config()).unwrap();
    assert!(plan.text.contains("\nName=A %{url} %{is_isolated ? x} Name=B\n"));
    assert!(plan.text.contains("\nExec=chromium --user-data-dir=/profiles/%{command} --app=https://example.com/\n"));
    assert!(plan.text.contains("\nIcon=/icons/%{name}=%{icon}.png\n"));
    let read = DesktopFile::from_string(&plan.path, &plan.text).unwrap();
    let after = read.get_entries(&configs).unwrap();
    assert_eq!(after.name(), before.name());
    assert_eq!(after.icon_path(), before.icon_path());
    assert_eq!(after.app_id(), before.app_id());
    assert_eq!(after.version().to_string(), before.version().to_string());
    assert_eq!(after.browser().id, before.browser().id);
    assert_eq!(after.url(), before.url());
    assert_eq!(after.domain(), before.domain());
    assert_eq!(after.url_path(), before.url_path());
    assert_eq!(after.isolate(), before.isolate());
    assert_eq!(after.maximize(), before.maximize());
    assert_eq!(after.profile_path(), before.profile_path());
}

#[test]
fn a_completed_update_reports_an_unknown_placeholder() {
    let mut configs = BrowserConfigs::new();
    configs.init(&vec![definition("Chromium", "chromium", "chromium", true, "[Desktop Entry]\nName=%{name}\nIcon=%{icon}\nX-Title=%{title}\n")]);
    let mut file = web_app();
    file.set_version(&Version::parse("0.1.0").unwrap());
    let plan = file.complete_update(&NOTHING, &configs, &dirs(), &config()).unwrap();
    assert!(plan.unknown_placeholder);
    let plan = file.complete_update(&NOTHING, &registry(), &dirs(), &config()).unwrap();
    assert!(!plan.unknown_placeholder);
}

#[test]
fn the_check_of_paths_reports_and_repairs() {
    let mut file = web_app();
    let check = file.check_paths(&NOTHING, &FILE, &registry(), &dirs(), &config());
    assert!(check.error.is_none() && check.rebuild.is_none() && !check.icon_missing);
    let check = file.check_paths(&NOTHING, &NOTHING, &registry(), &dirs(), &config());
    assert!(check.error.is_none() && check.rebuild.is_none() && check.icon_missing);
    file.set_isolated(true);
    file.set_profile_path("/profiles/gone");
    let check = file.check_paths(&NOTHING, &FILE, &registry(), &dirs(), &config());
    assert_eq!(check.rebuild.unwrap().profile_path, "/home/u/.local/share/web-apps/profiles/chromium/AbCd1234");
    assert!(!check.icon_missing);
    let check = file.check_paths(&DIRECTORY, &FILE, &registry(), &dirs(), &config());
    assert!(check.rebuild.is_none());
    file.set_browser(registry().get_by_id("plain").unwrap());
    let check = file.check_paths(&NOTHING, &DIRECTORY, &registry(), &dirs(), &config());
    assert!(check.error.is_none() && check.rebuild.is_none() && check.icon_missing);
    let check = without(&file, Key::Name).check_paths(&NOTHING, &NOTHING, &registry(), &dirs(), &config());
    assert_eq!(validation(check.error.unwrap()), (Key::Name, "Missing".to_string()));
    assert!(check.rebuild.is_none() && !check.icon_missing);
}
