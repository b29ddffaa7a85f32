use overkami::filter::{string_filter, wallpaper_filter, Filter, StringFilterStrategy};

#[test]
fn exact_matches_same_title() {
    assert!(string_filter("Notes", "Notes", &StringFilterStrategy::Exact));
}

#[test]
fn exact_is_case_sensitive() {
    assert!(!string_filter("Notes", "notes", &StringFilterStrategy::Exact));
}

#[test]
fn exact_rejects_proper_prefix() {
    assert!(!string_filter("Notes", "Note", &StringFilterStrategy::Exact));
}

#[test]
fn prefix_matches_leading_word() {
    assert!(string_filter("My Notes App", "My", &StringFilterStrategy::Prefix));
}

#[test]
fn suffix_matches_trailing_word() {
    assert!(string_filter("My Notes App", "App", &StringFilterStrategy::Suffix));
}

#[test]
fn contains_matches_middle_word() {
    assert!(string_filter("My Notes App", "Notes", &StringFilterStrategy::Contains));
}

#[test]
fn prefix_rejects_middle_word() {
    assert!(!string_filter("My Notes App", "Notes", &StringFilterStrategy::Prefix));
}

#[test]
fn suffix_rejects_leading_word() {
    assert!(!string_filter("My Notes App", "My", &StringFilterStrategy::Suffix));
}

#[test]
fn contains_rejects_absent_word() {
    assert!(!string_filter("My Notes App", "Editor", &StringFilterStrategy::Contains));
}

#[test]
fn empty_search_is_contained_everywhere() {
    assert!(string_filter("anything", "", &StringFilterStrategy::Contains));
    assert!(string_filter("", "", &StringFilterStrategy::Exact));
}

#[test]
fn longer_search_never_matches() {
    assert!(!string_filter("ab", "abc", &StringFilterStrategy::Prefix));
    assert!(!string_filter("ab", "abc", &StringFilterStrategy::Suffix));
    assert!(!string_filter("ab", "abc", &StringFilterStrategy::Contains));
    assert!(!string_filter("ab", "abc", &StringFilterStrategy::Exact));
}

#[test]
fn no_filters_accept_any_title() {
    assert!(wallpaper_filter(Some(String::from("anything")), &[]));
    assert!(wallpaper_filter(None, &[]));
}

#[test]
fn missing_title_fails_a_title_filter() {
    let filters = vec![Filter::WindowName {
        name: String::from("Notes"),
        strategy: StringFilterStrategy::Contains,
    }];
    assert!(!wallpaper_filter(None, &filters));
}

#[test]
fn all_filters_must_match() {
    let filters = vec![
        Filter::WindowName { name: String::from("My"), strategy: StringFilterStrategy::Prefix },
        Filter::WindowName { name: String::from("App"), strategy: StringFilterStrategy::Suffix },
    ];
    assert!(wallpaper_filter(Some(String::from("My Notes App")), &filters));
    assert!(!wallpaper_filter(Some(String::from("My Notes")), &filters));
}
