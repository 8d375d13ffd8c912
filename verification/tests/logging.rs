use pathwarp::logging::{level_from_config, level_from_env, parse_level_filter, LogLevel};

#[test]
fn parses_each_level_name() {
    assert_eq!(parse_level_filter("off"), Some(LogLevel::Off));
    assert_eq!(parse_level_filter("error"), Some(LogLevel::Error));
    assert_eq!(parse_level_filter("warn"), Some(LogLevel::Warn));
    assert_eq!(parse_level_filter("warning"), Some(LogLevel::Warn));
    assert_eq!(parse_level_filter("info"), Some(LogLevel::Info));
    assert_eq!(parse_level_filter("debug"), Some(LogLevel::Debug));
    assert_eq!(parse_level_filter("trace"), Some(LogLevel::Trace));
}

#[test]
fn parsing_ignores_case_and_surrounding_space() {
    assert_eq!(parse_level_filter("  DeBuG\t"), Some(LogLevel::Debug));
    assert_eq!(parse_level_filter("\u{3000}Trace\n"), Some(LogLevel::Trace));
}

#[test]
fn parsing_rejects_other_words() {
    assert_eq!(parse_level_filter(""), None);
    assert_eq!(parse_level_filter("verbose"), None);
    assert_eq!(parse_level_filter("de bug"), None);
    assert_eq!(parse_level_filter("pathwarp=debug"), None);
}

#[test]
fn config_reads_first_log_level_line() {
    let text = "# settings\n\nlog_level = \"debug\"\nlog_level = \"trace\"\n";
    assert_eq!(level_from_config(text), Some(LogLevel::Debug));
}

#[test]
fn config_skips_comments_and_invalid_values() {
    let text = "# log_level = \"trace\"\nlog_level = \"loud\"\r\n  log_level==  'x'\nlog_level\t=\"INFO\"\r\n";
    assert_eq!(level_from_config(text), Some(LogLevel::Info));
}

#[test]
fn config_needs_an_equals_sign() {
    assert_eq!(level_from_config("log_level debug\n"), None);
    assert_eq!(level_from_config("log_levels = debug"), None);
    assert_eq!(level_from_config("log_level ==debug"), Some(LogLevel::Debug));
}

#[test]
fn config_without_setting_gives_none() {
    assert_eq!(level_from_config(""), None);
    assert_eq!(level_from_config("\n\n# nothing\n"), None);
}

#[test]
fn environment_prefers_the_application_variable() {
    assert_eq!(level_from_env(Some("warn"), Some("trace")), Some(LogLevel::Warn));
    assert_eq!(level_from_env(Some("nonsense"), Some("trace")), Some(LogLevel::Trace));
    assert_eq!(level_from_env(None, Some("info")), Some(LogLevel::Info));
    assert_eq!(level_from_env(None, Some("my_crate=debug")), None);
    assert_eq!(level_from_env(None, None), None);
}
