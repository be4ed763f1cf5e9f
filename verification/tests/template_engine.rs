use web_apps::browsers::Base;
use web_apps::template::{build_domain_path, fill, has_unmatched_placeholder, replace_conditional};

fn conditional(key: &str, set: bool, with: Option<&str>, text: &str) -> String {
    let chars: Vec<char> = text.chars().collect();
    replace_conditional(key, set, with, &chars).into_iter().collect()
}

#[test]
fn chromium_joins_domain_and_path_with_underscores() {
    assert_eq!(build_domain_path(Base::Chromium, "example.com", "/foo/bar"), "example.com__foo_bar");
    assert_eq!(build_domain_path(Base::Chromium, "example.com", "/"), "example.com__");
    assert_eq!(build_domain_path(Base::Chromium, "example.com", ""), "example.com_");
}

#[test]
fn other_browsers_keep_domain_and_path_as_they_are() {
    assert_eq!(build_domain_path(Base::Firefox, "example.com", "/foo/bar"), "example.com/foo/bar");
    assert_eq!(build_domain_path(Base::NoBase, "example.com", "/foo/bar"), "example.com/foo/bar");
}

#[test]
fn a_false_conditional_stands_for_nothing() {
    assert_eq!(conditional("is_isolated", false, Some("/p"), "%{is_isolated ? Profile}"), "");
    assert_eq!(conditional("is_maximized", false, None, "a %{is_maximized ? --max} b"), "a  b");
}

#[test]
fn a_true_conditional_with_a_value_stands_for_literal_and_value() {
    assert_eq!(
        conditional("is_isolated", true, Some("/home/u/profile"), "%{is_isolated ? Profile}"),
        "Profile=/home/u/profile"
    );
    assert_eq!(
        conditional("is_isolated", true, Some("/p"), "x %{is_isolated ? --user-data-dir} y"),
        "x --user-data-dir=/p y"
    );
}

#[test]
fn a_true_conditional_without_a_value_stands_for_its_literal() {
    assert_eq!(conditional("is_maximized", true, None, "%{is_maximized ? --start-maximized}"), "--start-maximized");
}

#[test]
fn the_value_is_taken_as_it_is() {
    assert_eq!(conditional("is_isolated", true, Some("$1 ${x} \\"), "%{is_isolated ? P}"), "P=$1 ${x} \\");
}

#[test]
fn white_space_around_the_question_mark_is_free() {
    assert_eq!(conditional("k", true, None, "%{k?a}"), "a");
    assert_eq!(conditional("k", true, None, "%{k   ?\t a b }"), "a b ");
    assert_eq!(conditional("k", true, None, "%{k ?  }"), " ");
    assert_eq!(conditional("k", true, None, "%{k?}"), "%{k?}");
}

#[test]
fn every_conditional_of_the_key_is_replaced_with_its_own_literal() {
    assert_eq!(conditional("k", true, Some("v"), "%{k ? a} and %{k ? b}"), "a=v and b=v");
    assert_eq!(conditional("k", false, Some("v"), "%{k ? a} and %{k ? b}"), " and ");
}

#[test]
fn other_keys_and_open_conditionals_stay() {
    assert_eq!(conditional("k", true, None, "%{kk ? a}"), "%{kk ? a}");
    assert_eq!(conditional("k", true, None, "%{other ? a}"), "%{other ? a}");
    assert_eq!(conditional("k", true, None, "%{k ? a"), "%{k ? a");
    assert_eq!(conditional("k", true, None, "%{k : a}"), "%{k : a}");
    assert_eq!(conditional("k", true, None, ""), "");
}

#[test]
fn a_template_is_filled() {
    let template = "[Desktop Entry]\nName=%{name}\nExec=%{command} --app=%{url} --class=%{app_id} %{is_isolated ? --user-data-dir} %{is_maximized ? --start-maximized}\nIcon=%{icon}\nStartupWMClass=%{domain_path}\nX-Domain=%{domain}\n";
    let text = fill(
        template,
        "chromium",
        "Test App",
        "https://example.com/",
        "example.com",
        "example.com__",
        "/icons/a.png",
        "wa-AbCd1234",
        true,
        "/profiles/AbCd1234",
        false,
    );
    assert_eq!(
        text,
        "[Desktop Entry]\nName=Test App\nExec=chromium --app=https://example.com/ --class=wa-AbCd1234 --user-data-dir=/profiles/AbCd1234 \nIcon=/icons/a.png\nStartupWMClass=example.com__\nX-Domain=example.com\n"
    );
}

#[test]
fn a_value_is_put_in_as_it_is() {
    // What is put in is never read as template.
    let text = fill("Name=%{name}", "", "A %{url}", "https://example.com/", "", "", "", "", false, "", false);
    assert_eq!(text, "Name=A %{url}");
    let text = fill("%{name}|%{url}", "", "%{url}", "U", "", "", "", "", false, "", false);
    assert_eq!(text, "%{url}|U");
    let text = fill("%{url}|%{name}", "", "N", "%{name}", "", "", "", "", false, "", false);
    assert_eq!(text, "%{name}|N");
    let text = fill("%{name} %{is_isolated ? x}", "", "%{is_isolated ? y}", "", "", "", "", "", true, "/p", false);
    assert_eq!(text, "%{is_isolated ? y} x=/p");
    let text = fill("%{is_isolated ? x}", "", "", "", "", "", "", "", true, "%{name}", false);
    assert_eq!(text, "x=%{name}");
    // Two placeholders side by side do not make a third.
    let text = fill("%%{name}{name}", "", "", "", "", "", "", "", false, "", false);
    assert_eq!(text, "%{name}");
    // The domain is no part of the placeholder of domain and path.
    let text = fill("%{domain}|%{domain_path}", "", "", "", "D", "DP", "", "", false, "", false);
    assert_eq!(text, "D|DP");
}

#[test]
fn a_false_conditional_takes_the_line_that_it_has_to_itself() {
    let lines = "A=1\n%{is_isolated ? Profile}\nB=2";
    assert_eq!(conditional("is_isolated", false, Some("/p"), lines), "A=1\nB=2");
    assert_eq!(conditional("is_isolated", true, Some("/p"), lines), "A=1\nProfile=/p\nB=2");
    assert_eq!(conditional("is_isolated", false, Some("/p"), "%{is_isolated ? Profile}\nB=2"), "B=2");
    assert_eq!(conditional("is_isolated", false, Some("/p"), "A=1\n%{is_isolated ? Profile}\n"), "A=1\n");
    assert_eq!(conditional("is_isolated", false, Some("/p"), "A=1\n%{is_isolated ? Profile}"), "A=1\n");
    assert_eq!(
        conditional("k", false, None, "A\n%{k ? x}\n%{k ? y}\n\n%{k ? z}\nB"),
        "A\n\nB"
    );
    // A line that holds anything else stays.
    assert_eq!(conditional("k", false, None, "A\n %{k ? x}\nB"), "A\n \nB");
    assert_eq!(conditional("k", false, None, "A\n%{k ? x} \nB"), "A\n \nB");
    assert_eq!(conditional("k", false, None, "A\nX=%{k ? x}\nB"), "A\nX=\nB");
    assert_eq!(conditional("k", false, None, "A\n%{k ? x}%{k ? y}\nB"), "A\n\nB");
    let text = fill("A=1\n%{is_isolated ? Profile}\n%{is_maximized ? Max}\nB=2\n", "", "", "", "", "", "", "", false, "/p", false);
    assert_eq!(text, "A=1\nB=2\n");
    let text = fill("A=1\n%{is_isolated ? Profile}\n%{is_maximized ? Max}\nB=2\n", "", "", "", "", "", "", "", true, "/p", true);
    assert_eq!(text, "A=1\nProfile=/p\nMax\nB=2\n");
}

#[test]
fn an_unknown_placeholder_is_noticed() {
    assert!(!has_unmatched_placeholder("Name=%{name}\nExec=%{command} %{url} %{is_isolated ? x}\n"));
    assert!(has_unmatched_placeholder("Name=%{title}\n"));
    assert!(has_unmatched_placeholder("Exec=%{is_private ? --private}\n"));
    assert!(has_unmatched_placeholder("Exec=%{is_isolated ? open\n"));
    assert!(!has_unmatched_placeholder(""));
    assert!(!has_unmatched_placeholder("100% {braces}"));
    assert!(!has_unmatched_placeholder("%%{name}{name}"));
    assert!(has_unmatched_placeholder("%{name}%{"));
}
