use pathwarp::window::{
    filtered_paths, handle_path_item_interaction, next_selected_index, normalized_selected_index,
};

#[test]
fn window_filters_paths_case_insensitively() {
    let paths = vec![
        "C:\\Work".to_string(),
        "D:\\Games".to_string(),
        "C:\\workspace\\PathWarp".to_string(),
    ];
    let result = filtered_paths(&paths, "WORK");
    assert_eq!(
        result,
        vec![
            "C:\\Work".to_string(),
            "C:\\workspace\\PathWarp".to_string()
        ]
    );
}

#[test]
fn window_keeps_all_paths_when_query_empty() {
    let paths = vec!["A".to_string(), "B".to_string()];
    assert_eq!(filtered_paths(&paths, ""), paths);
}

#[test]
fn window_normalizes_selected_index_when_out_of_range() {
    assert_eq!(normalized_selected_index(10, 3), 2);
    assert_eq!(normalized_selected_index(1, 0), 0);
}

#[test]
fn window_moves_selection_with_bounds() {
    assert_eq!(next_selected_index(0, 3, true, false), 0);
    assert_eq!(next_selected_index(0, 3, false, true), 1);
    assert_eq!(next_selected_index(2, 3, false, true), 2);
    assert_eq!(next_selected_index(5, 3, false, false), 2);
    assert_eq!(next_selected_index(0, 0, false, true), 0);
}

#[test]
fn single_click_only_changes_selection_without_injection() {
    let (next_idx, should_inject) = handle_path_item_interaction(0, 2, true, false, true);
    assert_eq!(next_idx, 2);
    assert!(!should_inject);
}

#[test]
fn double_click_triggers_injection_when_dialog_exists() {
    let (next_idx, should_inject) = handle_path_item_interaction(1, 1, true, true, true);
    assert_eq!(next_idx, 1);
    assert!(should_inject);
}

#[test]
fn double_click_does_not_inject_without_dialog() {
    let (next_idx, should_inject) = handle_path_item_interaction(0, 0, true, true, false);
    assert_eq!(next_idx, 0);
    assert!(!should_inject);
}

#[test]
fn window_tests_filters_paths_case_insensitively() {
    let paths = vec![
        "C:\\Work".to_string(),
        "D:\\Games".to_string(),
        "C:\\workspace\\PathWrap".to_string(),
    ];
    let result = filtered_paths(&paths, "WORK");
    assert_eq!(
        result,
        vec![
            "C:\\Work".to_string(),
            "C:\\workspace\\PathWrap".to_string()
        ]
    );
}

#[test]
fn window_tests_keeps_all_paths_when_query_empty() {
    let paths = vec!["A".to_string(), "B".to_string()];
    assert_eq!(filtered_paths(&paths, ""), paths);
}

#[test]
fn window_tests_normalizes_selected_index_when_out_of_range() {
    assert_eq!(normalized_selected_index(10, 3), 2);
    assert_eq!(normalized_selected_index(1, 0), 0);
}

#[test]
fn window_tests_moves_selection_with_bounds() {
    assert_eq!(next_selected_index(0, 3, true, false), 0);
    assert_eq!(next_selected_index(0, 3, false, true), 1);
    assert_eq!(next_selected_index(2, 3, false, true), 2);
    assert_eq!(next_selected_index(5, 3, false, false), 2);
    assert_eq!(next_selected_index(0, 0, false, true), 0);
}

#[test]
fn filtering_lowercases_non_ascii_letters() {
    let paths = vec!["D:\\ÄRCHIV".to_string(), "D:\\Other".to_string()];
    assert_eq!(filtered_paths(&paths, "ärch"), vec!["D:\\ÄRCHIV".to_string()]);
}

#[test]
fn filtering_keeps_order_and_duplicates() {
    let paths = vec![
        "b\\x".to_string(),
        "a\\x".to_string(),
        "b\\x".to_string(),
        "c".to_string(),
    ];
    assert_eq!(
        filtered_paths(&paths, "X"),
        vec!["b\\x".to_string(), "a\\x".to_string(), "b\\x".to_string()]
    );
}

#[test]
fn moving_up_and_down_at_once_in_middle() {
    assert_eq!(next_selected_index(1, 3, true, true), 1);
    assert_eq!(next_selected_index(9, 0, true, true), 0);
}
