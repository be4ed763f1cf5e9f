use web_apps::desktop_entry::{DecodeError, DesktopEntry};

#[test]
fn writes_header_and_lines_in_order_of_insertion() {
    let mut entry = DesktopEntry::new("/tmp/a.desktop");
    entry.add_desktop_entry("Name".to_string(), "Test App".to_string());
    entry.add_desktop_entry("Exec".to_string(), "firefox https://example.com".to_string());
    entry.add_desktop_entry("Alpha".to_string(), "1".to_string());
    assert_eq!(
        entry.to_string(),
        "[Desktop Entry]\nName=Test App\nExec=firefox https://example.com\nAlpha=1\n"
    );
}

#[test]
fn reads_what_it_wrote() {
    let mut entry = DesktopEntry::new("/tmp/a.desktop");
    entry.add_desktop_entry("Name".to_string(), "Test App".to_string());
    entry.add_desktop_entry("Exec".to_string(), "firefox https://example.com".to_string());
    entry.add_desktop_entry("X-Unknown".to_string(), "kept = as it is".to_string());
    let text = entry.to_string();
    let again = DesktopEntry::from_str("/tmp/a.desktop", &text).unwrap();
    assert_eq!(again.len(), 3);
    assert_eq!(again.desktop_entry("Name"), Some("Test App"));
    assert_eq!(again.desktop_entry("Exec"), Some("firefox https://example.com"));
    assert_eq!(again.desktop_entry("X-Unknown"), Some("kept = as it is"));
    assert_eq!(again.to_string(), text);
    assert_eq!(again.path(), "/tmp/a.desktop");
}

#[test]
fn setting_a_key_again_keeps_its_place() {
    let mut entry = DesktopEntry::new("");
    entry.add_desktop_entry("A".to_string(), "1".to_string());
    entry.add_desktop_entry("B".to_string(), "2".to_string());
    entry.add_desktop_entry("A".to_string(), "3".to_string());
    assert_eq!(entry.len(), 2);
    assert_eq!(entry.to_string(), "[Desktop Entry]\nA=3\nB=2\n");
    assert_eq!(entry.desktop_entry("A"), Some("3"));
    assert_eq!(entry.desktop_entry("C"), None);
}

#[test]
fn a_later_line_replaces_an_earlier_one_with_the_same_key() {
    let entry = DesktopEntry::from_str("", "[Desktop Entry]\nA=1\nB=2\nA=3\n").unwrap();
    assert_eq!(entry.to_string(), "[Desktop Entry]\nA=3\nB=2\n");
}

#[test]
fn blank_lines_and_comments_carry_no_data() {
    let text = "# a comment\n\n[Desktop Entry]\n   \n# another\nName=App\n\t\nIcon=/i.png";
    let entry = DesktopEntry::from_str("", text).unwrap();
    assert_eq!(entry.len(), 2);
    assert_eq!(entry.desktop_entry("Name"), Some("App"));
    assert_eq!(entry.desktop_entry("Icon"), Some("/i.png"));
}

#[test]
fn the_empty_text_is_the_empty_document() {
    let entry = DesktopEntry::from_str("", "").unwrap();
    assert_eq!(entry.len(), 0);
    assert_eq!(entry.to_string(), "[Desktop Entry]\n");
    let again = DesktopEntry::from_str("", &entry.to_string()).unwrap();
    assert_eq!(again.len(), 0);
}

#[test]
fn the_value_is_all_that_follows_the_first_equals_sign() {
    let entry = DesktopEntry::from_str("", "[Desktop Entry]\nExec=a --b=c =d\nEmpty=\n").unwrap();
    assert_eq!(entry.desktop_entry("Exec"), Some("a --b=c =d"));
    assert_eq!(entry.desktop_entry("Empty"), Some(""));
}

#[test]
fn another_header_is_rejected() {
    let r = DesktopEntry::from_str("", "[Desktop Action new]\nName=x\n");
    assert_eq!(r.err(), Some(DecodeError::InvalidGroup));
    let r = DesktopEntry::from_str("", "[Desktop Entry\nName=x\n");
    assert_eq!(r.err(), Some(DecodeError::InvalidGroup));
}

#[test]
fn a_second_header_is_rejected() {
    let r = DesktopEntry::from_str("", "[Desktop Entry]\nName=x\n[Desktop Entry]\n");
    assert_eq!(r.err(), Some(DecodeError::MultipleGroupWithSameName));
}

#[test]
fn a_line_before_the_header_is_rejected() {
    let r = DesktopEntry::from_str("", "Name=x\n[Desktop Entry]\n");
    assert_eq!(r.err(), Some(DecodeError::KeyValueWithoutAGroup));
}

#[test]
fn a_line_without_a_key_is_rejected() {
    let r = DesktopEntry::from_str("", "[Desktop Entry]\n=x\n");
    assert_eq!(r.err(), Some(DecodeError::InvalidKey));
}

#[test]
fn a_line_without_an_equals_sign_is_rejected() {
    let r = DesktopEntry::from_str("", "[Desktop Entry]\nName\n");
    assert_eq!(r.err(), Some(DecodeError::InvalidEntry));
}

#[test]
fn errors_have_names() {
    assert_eq!(DecodeError::InvalidGroup.to_string(), "InvalidGroup");
    assert_eq!(DecodeError::MultipleGroupWithSameName.to_string(), "MultipleGroupWithSameName");
    assert_eq!(DecodeError::KeyValueWithoutAGroup.to_string(), "KeyValueWithoutAGroup");
    assert_eq!(DecodeError::InvalidKey.to_string(), "InvalidKey");
    assert_eq!(DecodeError::InvalidEntry.to_string(), "InvalidEntry");
}

#[test]
fn the_path_can_be_changed() {
    let mut entry = DesktopEntry::new("/a");
    entry.add_desktop_entry("K".to_string(), "v".to_string());
    entry.set_path("/b");
    assert_eq!(entry.path(), "/b");
    assert_eq!(entry.desktop_entry("K"), Some("v"));
}

#[test]
fn text_beyond_ascii_is_kept() {
    let mut entry = DesktopEntry::new("");
    entry.add_desktop_entry("Name".to_string(), "Caf\u{e9} \u{1f600}".to_string());
    let again = DesktopEntry::from_str("", &entry.to_string()).unwrap();
    assert_eq!(again.desktop_entry("Name"), Some("Caf\u{e9} \u{1f600}"));
}
