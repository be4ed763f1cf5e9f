use web_apps::paths::{extension_of, join, stem_of};
use web_apps::text::{
    chars_eq, join_text, replace_all, str_eq, to_chars, to_text, trim,
};

fn chars(s: &str) -> Vec<char> {
    s.chars().collect()
}

#[test]
fn characters_and_text_are_two_forms_of_one_thing() {
    assert_eq!(to_chars("a\u{e9}b"), vec!['a', '\u{e9}', 'b']);
    assert_eq!(to_text(&vec!['x', '=', 'y']), "x=y");
    assert_eq!(to_text(&to_chars("")), "");
    assert_eq!(join_text("ab", "cd"), "abcd");
}

#[test]
fn equality_is_by_characters() {
    assert!(str_eq("abc", "abc"));
    assert!(!str_eq("abc", "abd"));
    assert!(!str_eq("abc", "ab"));
    assert!(str_eq("", ""));
    assert!(chars_eq(&chars("xy"), &chars("xy")));
    assert!(!chars_eq(&chars("xy"), &chars("yx")));
}

#[test]
fn every_occurrence_is_replaced_from_the_left() {
    assert_eq!(to_text(&replace_all(&chars("a/b/c"), &chars("/"), &chars("_"))), "a_b_c");
    assert_eq!(to_text(&replace_all(&chars("aaa"), &chars("aa"), &chars("b"))), "ba");
    assert_eq!(to_text(&replace_all(&chars("%{x}%{x}"), &chars("%{x}"), &chars("%{x}!"))), "%{x}!%{x}!");
    assert_eq!(to_text(&replace_all(&chars("abc"), &chars(""), &chars("z"))), "abc");
    assert_eq!(to_text(&replace_all(&chars(""), &chars("a"), &chars("z"))), "");
    assert_eq!(to_text(&replace_all(&chars("abc"), &chars("abcd"), &chars("z"))), "abc");
}

#[test]
fn white_space_is_trimmed_at_both_ends() {
    assert_eq!(trim("  firefox \t\n"), "firefox");
    assert_eq!(trim("a b"), "a b");
    assert_eq!(trim("   "), "");
    assert_eq!(trim(""), "");
    assert_eq!(trim("\u{a0}x\u{3000}"), "x");
}

#[test]
fn paths_are_joined_by_one_slash() {
    assert_eq!(join("/home/u", "apps"), "/home/u/apps");
    assert_eq!(join("/home/u/", "apps"), "/home/u/apps");
    assert_eq!(join("", "apps"), "apps");
    assert_eq!(join("/home/u", "/abs"), "/abs");
    assert_eq!(join("/home/u", ""), "/home/u/");
    assert_eq!(
        join("/home/u", "apps"),
        std::path::Path::new("/home/u").join("apps").to_string_lossy()
    );
}

#[test]
fn a_file_name_has_a_stem_and_an_extension() {
    assert_eq!(stem_of("firefox.yml"), "firefox");
    assert_eq!(extension_of("firefox.yml"), Some("yml".to_string()));
    assert_eq!(stem_of("a.b.yaml"), "a.b");
    assert_eq!(extension_of("a.b.yaml"), Some("yaml".to_string()));
    assert_eq!(stem_of(".hidden"), ".hidden");
    assert_eq!(extension_of(".hidden"), None);
    assert_eq!(stem_of("plain"), "plain");
    assert_eq!(extension_of("plain"), None);
    assert_eq!(stem_of("dot."), "dot");
    assert_eq!(extension_of("dot."), Some(String::new()));
}
