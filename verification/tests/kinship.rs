use web_apps::desktop_entry::DesktopEntry;
use web_apps::paths::join;
use web_apps::template::replace_conditional;
use web_apps::text::{is_space_char, replace_all, trim};
use web_apps::version::Version;

fn conditional(key: &str, set: bool, with: Option<&str>, text: &str) -> String {
    let chars: Vec<char> = text.chars().collect();
    replace_conditional(key, set, with, &chars).into_iter().collect()
}

fn by_pattern(key: &str, set: bool, with: Option<&str>, text: &str) -> String {
    let pattern = regex::Regex::new(&format!(r"%\{{{key}\s*\?\s*([^}}]+)\}}")).unwrap();
    pattern
        .replace_all(text, |found: &regex::Captures| match (set, with) {
            (true, Some(value)) => format!("{}={}", &found[1], value),
            (true, None) => found[1].to_string(),
            (false, _) => String::new(),
        })
        .to_string()
}

#[test]
fn conditionals_are_those_of_the_pattern() {
    let texts = [
        "%{k ? a}",
        "%{k?a}",
        "%{k  ?\t\na b }",
        "%{k ?  }",
        "%{k?}",
        "%{k ? a",
        "x%{k ? a}y%{k ? b}z",
        "%{kk ? a}%{k ? {a}}",
        "%{k \u{a0}? \u{3000}a}",
        "%%{k ? %{k ? a}}",
        "Exec=%{command} %{k ? --flag} %{other ? x}\n",
        "",
    ];
    for text in texts {
        for (set, with) in [(true, Some("v")), (true, None), (false, Some("v")), (false, None)] {
            assert_eq!(conditional("k", set, with, text), by_pattern("k", set, with, text), "{text:?}");
        }
    }
}

#[test]
fn the_written_text_is_read_by_other_readers_of_descriptors() {
    let mut entry = DesktopEntry::new("/apps/a.desktop");
    entry.add_desktop_entry("Name".to_string(), "Test App".to_string());
    entry.add_desktop_entry("Exec".to_string(), "chromium --app=https://example.com/".to_string());
    entry.add_desktop_entry("X-WebApp-Isolate".to_string(), "false".to_string());
    let text = entry.to_string();
    let other = freedesktop_desktop_entry::DesktopEntry::from_str("/apps/a.desktop", &text, None::<&[String]>).unwrap();
    assert_eq!(other.desktop_entry("Name"), Some("Test App"));
    assert_eq!(other.exec(), Some("chromium --app=https://example.com/"));
    assert_eq!(other.desktop_entry("X-WebApp-Isolate"), Some("false"));
    assert_eq!(other.groups.desktop_entry().unwrap().0.len(), 3);
}

#[test]
fn paths_are_joined_as_the_standard_library_joins_them() {
    for (base, part) in [("/a", "b"), ("/a/", "b"), ("", "b"), ("/a", "/b"), ("/a", ""), ("a", "b/c"), ("/", "b")] {
        assert_eq!(join(base, part), std::path::Path::new(base).join(part).to_string_lossy(), "{base:?} {part:?}");
    }
}

#[test]
fn versions_are_written_as_the_semver_crate_writes_them() {
    for text in ["0.0.0", "1.2.3", "1.0.0-alpha.1", "1.0.0+build", "4.5.6-rc.1+b.2"] {
        assert_eq!(Version::parse(text).unwrap().to_string(), semver::Version::parse(text).unwrap().to_string());
    }
}

#[test]
fn white_space_is_what_the_standard_library_takes_for_it() {
    for code in 0..=0x10ffff_u32 {
        if let Some(c) = char::from_u32(code) {
            assert_eq!(is_space_char(c), c.is_whitespace(), "U+{code:04X}");
        }
    }
}

#[test]
fn texts_are_trimmed_and_replaced_as_the_standard_library_does() {
    for text in ["", " ", " a ", "\t a b \n", "\u{2003}x\u{85}", "a//b/c/", "%{x}%{x}", "aaa"] {
        assert_eq!(trim(text), text.trim());
        for (pattern, to) in [("/", "_"), ("aa", "b"), ("%{x}", "y"), ("b", "")] {
            let ours: String = replace_all(
                &text.chars().collect(),
                &pattern.chars().collect(),
                &to.chars().collect(),
            )
            .into_iter()
            .collect();
            assert_eq!(ours, text.replace(pattern, to), "{text:?} {pattern:?}");
        }
    }
}
