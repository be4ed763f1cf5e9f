use web_apps::icon_search::IconSearch;

#[test]
fn only_the_latest_search_counts() {
    let mut searches = IconSearch::new();
    assert!(searches.is_current(0));
    let first = searches.begin().unwrap();
    assert_eq!(first, 1);
    assert!(searches.is_current(first));
    let second = searches.begin().unwrap();
    assert_eq!(second, 2);
    assert!(!searches.is_current(first));
    assert!(searches.is_current(second));
    assert!(!searches.is_current(0));
    let third = searches.begin().unwrap();
    assert!(!searches.is_current(second));
    assert!(searches.is_current(third));
}
