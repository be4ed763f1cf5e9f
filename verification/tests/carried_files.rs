use web_apps::app_dirs::AppDirs;
use web_apps::assets::{
    create_stand_alone_desktop_file, extract_config_dir, get_app_description,
    get_desktop_file_in, get_icon_data_in, get_meta_info, get_meta_info_in, init,
    reset_config_files, AssetEntry, Assets, Extraction,
};
use web_apps::config::Config;
use web_apps::desktop_entry::DecodeError;

fn config() -> Config {
    Config {
        app_id: "org.example.WebApps".to_string(),
        app_name: "Web Apps".to_string(),
        app_name_short: "wa".to_string(),
        app_name_hyphen: "web-apps".to_string(),
        version: "0.2.0".to_string(),
    }
}

fn dirs() -> AppDirs {
    AppDirs::new(&config(), "/home/u", "/home/u/.local/share", "/home/u/.config", vec![], vec![])
}

fn file(path: &str, contents: &[u8]) -> AssetEntry {
    AssetEntry::File { path: path.to_string(), contents: contents.to_vec() }
}

fn assets() -> Assets {
    Assets {
        config: vec![
            AssetEntry::Dir { path: "browsers".to_string() },
            file("browsers/firefox.yml", b"name: Firefox\n"),
            AssetEntry::Dir { path: "desktop-files".to_string() },
            file("desktop-files/firefox.desktop", b"[Desktop Entry]\n"),
        ],
        desktop: vec![
            AssetEntry::Dir { path: "org.example.Other.metainfo.xml".to_string() },
            file("org.example.WebApps.desktop", b"[Desktop Entry]\n"),
            file("org.example.WebApps.metainfo.xml", "<component>caf\u{e9}</component>".as_bytes()),
            file("org.example.WebApps.metainfo.xml", b"second"),
            file("org.example.Broken.metainfo.xml", &[0x3c, 0xff, 0xfe, 0x3e]),
        ],
        icon_in: vec![0x89, 0x50, 0x4e, 0x47],
        desktop_file_in: "[Desktop Entry]\nType=Application\nName=placeholder\nExec=web-apps\n".to_string(),
        meta_info_in: "<component>%{app_id}</component>".to_string(),
        app_description: "Turns web sites into applications.".to_string(),
    }
}

fn show(steps: Vec<Extraction>) -> Vec<String> {
    steps
        .into_iter()
        .map(|step| match step {
            Extraction::Directory { path } => format!("mkdir {path}"),
            Extraction::File { path, contents } => format!("write {path} {}", contents.len()),
            Extraction::RemoveDirectory { path } => format!("remove {path}"),
        })
        .collect()
}

#[test]
fn carried_texts_are_handed_out_as_they_are() {
    let a = assets();
    assert_eq!(get_icon_data_in(&a), &vec![0x89, 0x50, 0x4e, 0x47]);
    assert_eq!(get_meta_info_in(&a), "<component>%{app_id}</component>");
    assert_eq!(get_app_description(&a), "Turns web sites into applications.");
    assert_eq!(get_desktop_file_in(&a), "[Desktop Entry]\nType=Application\nName=placeholder\nExec=web-apps\n");
}

#[test]
fn the_description_for_software_centers_is_the_file_named_after_the_application() {
    assert_eq!(get_meta_info(&assets(), &config()), "<component>caf\u{e9}</component>");
}

#[test]
fn a_description_that_is_missing_or_no_text_is_empty() {
    let mut other = config();
    other.app_id = "org.example.Missing".to_string();
    assert_eq!(get_meta_info(&assets(), &other), "");
    other.app_id = "org.example.Broken".to_string();
    assert_eq!(get_meta_info(&assets(), &other), "");
    other.app_id = "org.example.Other".to_string();
    assert_eq!(get_meta_info(&assets(), &other), "");
}

#[test]
fn the_default_configuration_is_written_entry_by_entry() {
    let expected = vec![
        "mkdir /home/u/.config/web-apps/browsers",
        "write /home/u/.config/web-apps/browsers/firefox.yml 14",
        "mkdir /home/u/.config/web-apps/desktop-files",
        "write /home/u/.config/web-apps/desktop-files/firefox.desktop 16",
    ];
    assert_eq!(show(init(&dirs(), &assets())), expected);
    assert_eq!(show(extract_config_dir(&dirs(), &assets())), expected);
    match &init(&dirs(), &assets())[1] {
        Extraction::File { contents, .. } => assert_eq!(contents, b"name: Firefox\n"),
        other => panic!("not a file: {other:?}"),
    }
}

#[test]
fn a_reset_removes_the_configuration_first() {
    let steps = show(reset_config_files(&dirs(), &assets(), true));
    assert_eq!(steps.len(), 5);
    assert_eq!(steps[0], "remove /home/u/.config/web-apps");
    assert_eq!(steps[1], "mkdir /home/u/.config/web-apps/browsers");
    let steps = show(reset_config_files(&dirs(), &assets(), false));
    assert_eq!(steps.len(), 4);
    assert_eq!(steps[0], "mkdir /home/u/.config/web-apps/browsers");
}

#[test]
fn the_own_descriptor_carries_the_names_of_the_application() {
    let entry = create_stand_alone_desktop_file(&dirs(), &assets(), &config()).unwrap();
    assert_eq!(entry.path(), "/home/u/.local/share/applications/org.example.WebApps.desktop");
    assert_eq!(
        entry.to_string(),
        "[Desktop Entry]\nType=Application\nName=Web Apps\nExec=web-apps\nIcon=org.example.WebApps\nStartupWMClass=org.example.WebApps\n"
    );
}

#[test]
fn a_skeleton_that_is_no_descriptor_gives_no_own_descriptor() {
    let mut a = assets();
    a.desktop_file_in = "Name=before the header\n".to_string();
    let r = create_stand_alone_desktop_file(&dirs(), &a, &config());
    assert_eq!(r.err(), Some(DecodeError::KeyValueWithoutAGroup));
}
