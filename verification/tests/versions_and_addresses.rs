use web_apps::app_id::random_id;
use web_apps::version::Version;
use web_apps::web_url::ParsedUrl;

#[test]
fn a_version_is_read_field_by_field() {
    let v = Version::parse("1.20.3-alpha.1+build.5").unwrap();
    assert_eq!((v.major, v.minor, v.patch), (1, 20, 3));
    assert_eq!(v.pre, "alpha.1");
    assert_eq!(v.build, "build.5");
    let v = Version::parse("0.1.0").unwrap();
    assert_eq!((v.major, v.minor, v.patch), (0, 1, 0));
    assert_eq!(v.pre, "");
    assert_eq!(v.build, "");
}

#[test]
fn what_is_no_version_is_not_read() {
    assert!(Version::parse("1.0").is_none());
    assert!(Version::parse("1.0.01").is_none());
    assert!(Version::parse("").is_none());
    assert!(Version::parse("v1.0.0").is_none());
    assert!(Version::parse("1.0.0-").is_none());
}

#[test]
fn a_version_is_written_as_it_is_read() {
    for text in ["0.0.0", "1.2.3", "10.200.3000", "1.0.0-rc.1", "1.0.0+b7", "1.0.0-a.b+c.d"] {
        assert_eq!(Version::parse(text).unwrap().to_string(), text);
    }
    assert_eq!(Version::new(18446744073709551615, 0, 7).to_string(), "18446744073709551615.0.7");
    assert_eq!(Version::new(0, 0, 0).to_string(), "0.0.0");
}

#[test]
fn numbers_order_versions_left_to_right() {
    let older = |a: &str, b: &str| Version::parse(a).unwrap().is_older_than(&Version::parse(b).unwrap());
    assert_eq!(older("0.1.0", "0.2.0"), Some(true));
    assert_eq!(older("0.2.0", "0.1.0"), Some(false));
    assert_eq!(older("1.5.0", "1.19.0"), Some(true));
    assert_eq!(older("2.0.0", "1.99.99"), Some(false));
    assert_eq!(older("1.2.3", "1.2.4"), Some(true));
    assert_eq!(older("1.2.3", "1.2.3"), Some(false));
}

#[test]
fn identifiers_order_versions_with_equal_numbers() {
    let older = |a: &str, b: &str| Version::parse(a).unwrap().is_older_than(&Version::parse(b).unwrap());
    assert_eq!(older("1.0.0-alpha", "1.0.0"), Some(true));
    assert_eq!(older("1.0.0", "1.0.0-alpha"), Some(false));
    assert_eq!(older("1.0.0-alpha", "1.0.0-alpha.1"), Some(true));
    assert_eq!(older("1.0.0-beta.2", "1.0.0-beta.11"), Some(true));
    assert_eq!(older("1.0.0-beta.11", "1.0.0-beta.2"), Some(false));
    assert_eq!(older("1.0.0-rc.1", "1.0.0-rc.1"), Some(false));
    assert_eq!(older("1.20.0", "1.20.0+bc17664"), Some(true));
    assert_eq!(older("1.20.0+bc17664", "1.20.0+c144a98"), Some(true));
    assert_eq!(older("1.20.0+c144a98", "1.20.0+bc17664"), Some(false));
}

#[test]
fn the_order_agrees_with_the_semver_crate() {
    let texts = ["0.0.0", "0.1.0", "1.0.0-alpha", "1.0.0-alpha.1", "1.0.0-beta", "1.0.0", "1.0.0+a", "1.0.0+b", "1.0.1", "2.0.0-rc.1"];
    for a in texts {
        for b in texts {
            let ours = Version::parse(a).unwrap().is_older_than(&Version::parse(b).unwrap());
            let theirs = semver::Version::parse(a).unwrap() < semver::Version::parse(b).unwrap();
            assert_eq!(ours, Some(theirs), "{a} < {b}");
        }
    }
}

#[test]
fn identifiers_that_are_none_are_not_ordered() {
    let a = Version { major: 1, minor: 0, patch: 0, pre: "not valid!".to_string(), build: String::new() };
    let b = Version { major: 1, minor: 0, patch: 0, pre: "alpha".to_string(), build: String::new() };
    assert_eq!(a.is_older_than(&b), None);
    let c = Version { major: 1, minor: 0, patch: 0, pre: String::new(), build: "a b".to_string() };
    let d = Version::new(1, 0, 0);
    assert_eq!(c.is_older_than(&d), None);
    assert_eq!(a.is_older_than(&Version::new(2, 0, 0)), Some(true));
}

#[test]
fn an_address_is_normalized() {
    let a = ParsedUrl::parse("HTTPS://Example.COM").unwrap();
    assert_eq!(a.url, "https://example.com/");
    assert_eq!(a.domain.as_deref(), Some("example.com"));
    assert_eq!(a.host.as_deref(), Some("example.com"));
    assert_eq!(a.path, "/");
    assert_eq!(a.domain_or_host(), Some("example.com".to_string()));
    let b = ParsedUrl::parse(&a.url).unwrap();
    assert_eq!((b.url, b.domain, b.host, b.path), (a.url, a.domain, a.host, a.path));
}

#[test]
fn an_address_has_a_path() {
    let a = ParsedUrl::parse("https://example.com/foo/bar?x=1#top").unwrap();
    assert_eq!(a.path, "/foo/bar");
    assert_eq!(a.url, "https://example.com/foo/bar?x=1#top");
}

#[test]
fn an_address_of_numbers_has_a_host_and_no_domain() {
    let a = ParsedUrl::parse("http://127.0.0.1:8080/x").unwrap();
    assert_eq!(a.domain, None);
    assert_eq!(a.host.as_deref(), Some("127.0.0.1"));
    assert_eq!(a.domain_or_host(), Some("127.0.0.1".to_string()));
}

#[test]
fn an_address_may_have_neither_domain_nor_host() {
    let a = ParsedUrl::parse("mailto:rms@example.net").unwrap();
    assert_eq!(a.domain, None);
    assert_eq!(a.host, None);
    assert_eq!(a.domain_or_host(), None);
}

#[test]
fn what_is_no_address_is_not_read() {
    assert!(ParsedUrl::parse("not-a-url").is_none());
    assert!(ParsedUrl::parse("").is_none());
    assert!(ParsedUrl::parse("//example.com").is_none());
}

#[test]
fn a_random_identifier_has_eight_letters_or_digits() {
    let mut seen = std::collections::HashSet::new();
    for _ in 0..200 {
        let id = random_id();
        assert_eq!(id.chars().count(), 8);
        assert!(id.chars().all(|c| c.is_ascii_alphanumeric()));
        seen.insert(id);
    }
    assert!(seen.len() > 1);
}

#[test]
fn an_address_for_a_web_app_has_a_domain_or_a_host() {
    assert!(ParsedUrl::is_valid("https://example.com"));
    assert!(ParsedUrl::is_valid("http://127.0.0.1:8080/x"));
    assert!(!ParsedUrl::is_valid("mailto:rms@example.net"));
    assert!(!ParsedUrl::is_valid("example.com"));
    assert!(!ParsedUrl::is_valid(""));
}
