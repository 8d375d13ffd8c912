use pathwarp::explorer::{
    collect_converted_paths, collect_explorer_paths, file_url_to_path, is_file_url,
    is_safe_file_location, normalize_paths,
};

#[test]
fn file_urls_are_recognized_by_prefix() {
    assert!(is_file_url("file:///C:/Work"));
    assert!(!is_file_url("file://server/share"));
    assert!(!is_file_url("::{20D04FE0-3AEA-1069-A2D8-08002B30309D}"));
    assert!(!is_file_url("file:/"));
}

#[test]
fn non_file_urls_give_no_path() {
    assert_eq!(file_url_to_path("http://example.com/"), None);
    assert_eq!(file_url_to_path(""), None);
}

#[test]
fn paths_are_sorted_and_deduplicated() {
    let paths = vec![
        "D:\\Games".to_string(),
        "C:\\Work".to_string(),
        "C:\\Work".to_string(),
        "C:\\Users".to_string(),
        "é".to_string(),
        "z".to_string(),
    ];
    let mut expected = paths.clone();
    expected.sort();
    expected.dedup();
    assert_eq!(normalize_paths(paths), expected);
}

#[test]
fn empty_and_prefix_paths_order() {
    let paths = vec!["ab".to_string(), "a".to_string(), "".to_string(), "a".to_string()];
    assert_eq!(
        normalize_paths(paths),
        vec!["".to_string(), "a".to_string(), "ab".to_string()]
    );
}

#[test]
fn collecting_keeps_only_file_locations() {
    let locations = vec![
        "http://example.com/".to_string(),
        "::{20D04FE0-3AEA-1069-A2D8-08002B30309D}".to_string(),
    ];
    assert!(collect_explorer_paths(&locations).is_empty());
}

#[test]
fn collecting_converts_unix_file_urls() {
    let locations = vec![
        "file:///tmp/b".to_string(),
        "file:///tmp/a%20b".to_string(),
        "file:///tmp/b".to_string(),
        "https://x/".to_string(),
    ];
    assert_eq!(
        collect_explorer_paths(&locations),
        vec!["/tmp/a b".to_string(), "/tmp/b".to_string()]
    );
}

#[test]
fn bare_drive_locations_are_left_out() {
    assert!(!is_safe_file_location("file:///C:"));
    assert!(!is_safe_file_location("file:///C|"));
    assert!(!is_safe_file_location("file:///C%3A"));
    assert!(!is_safe_file_location("file:///x/../C:"));
    assert!(!is_safe_file_location("file:///./C:"));
    assert!(!is_safe_file_location("file:///x/%2e%2E/C:"));
    assert!(!is_safe_file_location("file:///C:?/x"));
    assert!(!is_safe_file_location("file:///x/.%2E/C:"));
    assert!(!is_safe_file_location("file:///C\t:"));
    assert_eq!(file_url_to_path("file:///C:"), None);
    assert_eq!(file_url_to_path("file:///x/../C:"), None);
}

#[test]
fn drive_paths_with_a_separator_are_kept() {
    assert!(is_safe_file_location("file:///C:/"));
    assert!(is_safe_file_location("file:///C:/Users/me/my.folder"));
    assert!(is_safe_file_location("file:///C:\\Work"));
    assert!(is_safe_file_location("file:///tmp"));
    assert!(is_safe_file_location("file:///tmp/./b"));
    assert!(is_safe_file_location("file:///C:/a..b"));
    assert!(is_safe_file_location("file:///C:/a%2eb/.c"));
    assert!(is_safe_file_location("file:///tmp/x\ty"));
    assert!(!is_safe_file_location("file:///C:/x\ty"));
    assert!(!is_safe_file_location("file://"));
    assert_eq!(file_url_to_path("file:///C:/a..b"), Some("/C:/a..b".to_string()));
    assert_eq!(file_url_to_path("file:///C:/x"), Some("/C:/x".to_string()));
    assert_eq!(file_url_to_path("file:///tmp"), Some("/tmp".to_string()));
    assert_eq!(file_url_to_path("file:///tmp/./b"), Some("/tmp/b".to_string()));
}

#[test]
fn converted_outcomes_become_the_folder_list() {
    let outcomes = vec![
        Some("C:\\Work".to_string()),
        None,
        Some("C:\\Users".to_string()),
        Some("C:\\Work".to_string()),
        None,
    ];
    assert_eq!(
        collect_converted_paths(outcomes),
        vec!["C:\\Users".to_string(), "C:\\Work".to_string()]
    );
    assert!(collect_converted_paths(vec![None, None]).is_empty());
    assert!(collect_converted_paths(Vec::new()).is_empty());
}
