use log_analyzer::level::{
    level_from_name, level_name, parse_log_level, style_of, ColorStyle, LogLevelFilter,
};
use log_analyzer::text::{equals_ci, find_ci};

#[test]
fn classify_each_level() {
    assert_eq!(parse_log_level(b"boot ERROR x"), Some(LogLevelFilter::Error));
    assert_eq!(parse_log_level(b"boot WARN x"), Some(LogLevelFilter::Warn));
    assert_eq!(parse_log_level(b"boot INFO x"), Some(LogLevelFilter::Info));
    assert_eq!(parse_log_level(b"boot DEBUG x"), Some(LogLevelFilter::Debug));
    assert_eq!(parse_log_level(b"boot TRACE x"), Some(LogLevelFilter::Trace));
}

#[test]
fn classify_is_case_insensitive() {
    assert_eq!(parse_log_level(b"2024 error retry"), Some(LogLevelFilter::Error));
    assert_eq!(parse_log_level(b"TrAcE here"), Some(LogLevelFilter::Trace));
    assert_eq!(parse_log_level(b"warning ahead"), Some(LogLevelFilter::Warn));
}

#[test]
fn classify_priority_error_first() {
    assert_eq!(parse_log_level(b"WARN then ERROR"), Some(LogLevelFilter::Error));
    assert_eq!(parse_log_level(b"info debug"), Some(LogLevelFilter::Info));
    assert_eq!(parse_log_level(b"debug trace"), Some(LogLevelFilter::Debug));
    assert_eq!(parse_log_level(b"trace warn info"), Some(LogLevelFilter::Warn));
    assert_eq!(parse_log_level(b"ERROR WARN INFO DEBUG TRACE"), Some(LogLevelFilter::Error));
}

#[test]
fn classify_substring_false_positive_is_kept() {
    assert_eq!(parse_log_level(b"infotainment system on"), Some(LogLevelFilter::Info));
}

#[test]
fn classify_none_when_no_token() {
    assert_eq!(parse_log_level(b"hello world"), None);
    assert_eq!(parse_log_level(b""), None);
    assert_eq!(parse_log_level(b"ERR OR"), None);
}

#[test]
fn level_names_are_uppercase_tokens() {
    assert_eq!(level_name(LogLevelFilter::Error), b"ERROR".to_vec());
    assert_eq!(level_name(LogLevelFilter::Warn), b"WARN".to_vec());
    assert_eq!(level_name(LogLevelFilter::Info), b"INFO".to_vec());
    assert_eq!(level_name(LogLevelFilter::Debug), b"DEBUG".to_vec());
    assert_eq!(level_name(LogLevelFilter::Trace), b"TRACE".to_vec());
}

#[test]
fn level_from_name_is_case_insensitive() {
    assert_eq!(level_from_name(b"Info"), Some(LogLevelFilter::Info));
    assert_eq!(level_from_name(b"INFO"), Some(LogLevelFilter::Info));
    assert_eq!(level_from_name(b"info"), Some(LogLevelFilter::Info));
    assert_eq!(level_from_name(b"error"), Some(LogLevelFilter::Error));
    assert_eq!(level_from_name(b"Warn"), Some(LogLevelFilter::Warn));
    assert_eq!(level_from_name(b"dEbUg"), Some(LogLevelFilter::Debug));
    assert_eq!(level_from_name(b"trace"), Some(LogLevelFilter::Trace));
}

#[test]
fn level_from_name_rejects_other_text() {
    assert_eq!(level_from_name(b"bogus"), None);
    assert_eq!(level_from_name(b""), None);
    assert_eq!(level_from_name(b"inf"), None);
    assert_eq!(level_from_name(b"infos"), None);
    assert_eq!(level_from_name(b"ERROR "), None);
}

#[test]
fn styles_follow_levels() {
    assert_eq!(style_of(LogLevelFilter::Error), ColorStyle::RedBold);
    assert_eq!(style_of(LogLevelFilter::Warn), ColorStyle::YellowBold);
    assert_eq!(style_of(LogLevelFilter::Info), ColorStyle::Green);
    assert_eq!(style_of(LogLevelFilter::Debug), ColorStyle::Blue);
    assert_eq!(style_of(LogLevelFilter::Trace), ColorStyle::Magenta);
}

#[test]
fn find_ci_folds_case() {
    assert!(find_ci(b"Hello World", b"o w"));
    assert!(find_ci(b"disk FULL", b"full"));
    assert!(!find_ci(b"disk full", b"empty"));
    assert!(find_ci(b"abc", b""));
    assert!(!find_ci(b"ab", b"abc"));
    assert!(find_ci(b"", b""));
}

#[test]
fn equals_ci_folds_case() {
    assert!(equals_ci(b"ErRoR", b"error"));
    assert!(equals_ci(b"", b""));
    assert!(!equals_ci(b"error", b"errors"));
    assert!(!equals_ci(b"warn", b"info"));
}
